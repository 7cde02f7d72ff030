//! Core data structures for memory layout analysis: regions, sections,
//! symbols, analysis results and vector tables.
use vstd::prelude::*;

use crate::text::push_str;

verus! {

/// Physical memory region (e.g., FLASH, RAM) with address and size.
#[derive(Debug)]
pub struct MemoryRegion {
    /// Region name (e.g., "FLASH", "RAM")
    pub name: String,
    /// Starting address
    pub origin: u64,
    /// Size in bytes
    pub length: u64,
    /// Memory attributes (e.g., "rx" for read/execute)
    pub attributes: String,
}

impl Clone for MemoryRegion {
    fn clone(&self) -> (r: Self)
        ensures
            r == *self,
    {
        MemoryRegion {
            name: self.name.clone(),
            origin: self.origin,
            length: self.length,
            attributes: self.attributes.clone(),
        }
    }
}

/// Memory region classification for gaps.
#[derive(Debug, Clone, Copy, PartialEq, Eq, Structural)]
pub enum GapRegionType {
    /// Flash/ROM memory region
    Flash,
    /// RAM memory region
    Ram,
    /// Unknown or unclassified region
    Unknown,
}

/// `format!("{:?}", t)` for a gap region type.
pub open spec fn gap_region_name(t: GapRegionType) -> Seq<char> {
    match t {
        GapRegionType::Flash => "Flash"@,
        GapRegionType::Ram => "Ram"@,
        GapRegionType::Unknown => "Unknown"@,
    }
}

impl GapRegionType {
    /// The variant's name, as `{:?}` prints it.
    pub fn name(&self) -> (r: &'static str)
        ensures
            r@ == gap_region_name(*self),
    {
        match self {
            GapRegionType::Flash => "Flash",
            GapRegionType::Ram => "Ram",
            GapRegionType::Unknown => "Unknown",
        }
    }
}

/// Detected unused memory gap between sections.
#[derive(Debug, Clone, Copy)]
pub struct MemoryGap {
    /// Start address of the gap
    pub start: u64,
    /// End address of the gap
    pub end: u64,
    /// Gap size in bytes
    pub size: u64,
    /// Which memory region type (Flash or RAM)
    pub region_type: GapRegionType,
}

/// Detected memory overlap between two sections (indicates a problem).
#[derive(Debug)]
pub struct MemoryOverlap {
    /// First overlapping section name
    pub section1: String,
    /// Second overlapping section name
    pub section2: String,
    /// Address where overlap starts
    pub overlap_start: u64,
    /// Address where overlap ends
    pub overlap_end: u64,
    /// Total overlap size in bytes
    pub overlap_size: u64,
}

/// Results from memory layout analysis.
#[derive(Debug)]
pub struct AnalysisResult {
    /// Detected memory gaps (unused regions)
    pub gaps: Vec<MemoryGap>,
    /// Detected section overlaps
    pub overlaps: Vec<MemoryOverlap>,
    /// Total alignment padding in bytes
    pub total_padding: u64,
    /// Gap between stack and heap (if both exist)
    pub stack_heap_gap: Option<u64>,
    /// Generated warnings about potential issues
    pub warnings: Vec<String>,
}

/// Classification of ELF section types.
#[derive(Debug)]
pub enum SectionType {
    /// Executable code (.text)
    Text,
    /// Read-only data (.rodata)
    RoData,
    /// Initialized data (.data)
    Data,
    /// Uninitialized data (.bss)
    Bss,
    /// Stack memory
    Stack,
    /// Heap memory
    Heap,
    /// Custom/unrecognized section
    Custom(String),
}

impl Clone for SectionType {
    fn clone(&self) -> (r: Self)
        ensures
            r == *self,
    {
        match self {
            SectionType::Text => SectionType::Text,
            SectionType::RoData => SectionType::RoData,
            SectionType::Data => SectionType::Data,
            SectionType::Bss => SectionType::Bss,
            SectionType::Stack => SectionType::Stack,
            SectionType::Heap => SectionType::Heap,
            SectionType::Custom(n) => SectionType::Custom(n.clone()),
        }
    }
}

/// What `format!("{:?}", s)` gives for a string: the quoted, escaped text.
pub uninterp spec fn str_debug(s: Seq<char>) -> Seq<char>;

/// Printable ASCII characters that `{:?}` leaves as they are.
pub open spec fn debug_plain(c: char) -> bool {
    0x20 <= (c as u32) && (c as u32) < 0x7f && c != '"' && c != '\\'
}

/// `format!("{:?}", s)` on a string: the string between double quotes with
/// quotes, backslashes and unprintable characters escaped. The contract
/// states the plain printable-ASCII case exactly; otherwise it names the result.
#[verifier::external_body]
pub(crate) fn debug_string(s: &str) -> (r: String)
    ensures
        r@ == str_debug(s@),
        (forall|i: int| 0 <= i < s@.len() ==> debug_plain(#[trigger] s@[i])) ==> r@ == seq!['"']
            + s@ + seq!['"'],
{
    format!("{:?}", s)
}

/// `format!("{:?}", t)` for a section type.
pub open spec fn section_type_name(t: SectionType) -> Seq<char> {
    match t {
        SectionType::Text => "Text"@,
        SectionType::RoData => "RoData"@,
        SectionType::Data => "Data"@,
        SectionType::Bss => "Bss"@,
        SectionType::Stack => "Stack"@,
        SectionType::Heap => "Heap"@,
        SectionType::Custom(n) => "Custom("@ + str_debug(n@) + ")"@,
    }
}

impl SectionType {
    /// The type as `{:?}` prints it.
    pub fn debug_name(&self) -> (r: Vec<char>)
        ensures
            r@ == section_type_name(*self),
    {
        let mut v: Vec<char> = Vec::new();
        match self {
            SectionType::Text => push_str(&mut v, "Text"),
            SectionType::RoData => push_str(&mut v, "RoData"),
            SectionType::Data => push_str(&mut v, "Data"),
            SectionType::Bss => push_str(&mut v, "Bss"),
            SectionType::Stack => push_str(&mut v, "Stack"),
            SectionType::Heap => push_str(&mut v, "Heap"),
            SectionType::Custom(n) => {
                push_str(&mut v, "Custom(");
                let d = debug_string(n.as_str());
                push_str(&mut v, d.as_str());
                push_str(&mut v, ")");
            },
        }
        proof {
            assert(v@ =~= section_type_name(*self));
        }
        v
    }
}

/// ELF symbol type classification.
#[derive(Debug, Clone, Copy, PartialEq, Eq, Structural)]
pub enum SymbolType {
    /// No type specified
    NoType,
    /// Data object / variable
    Object,
    /// Function / code
    Function,
    /// Section reference
    Section,
    /// Source file name
    File,
    /// Uninitialized common block
    Common,
    /// Thread-local storage
    Tls,
    /// Unknown symbol type
    Unknown,
}

/// `format!("{:?}", t)` for a symbol type.
pub open spec fn symbol_type_name(t: SymbolType) -> Seq<char> {
    match t {
        SymbolType::NoType => "NoType"@,
        SymbolType::Object => "Object"@,
        SymbolType::Function => "Function"@,
        SymbolType::Section => "Section"@,
        SymbolType::File => "File"@,
        SymbolType::Common => "Common"@,
        SymbolType::Tls => "Tls"@,
        SymbolType::Unknown => "Unknown"@,
    }
}

impl SymbolType {
    /// The variant's name, as `{:?}` prints it.
    pub fn name(&self) -> (r: &'static str)
        ensures
            r@ == symbol_type_name(*self),
    {
        match self {
            SymbolType::NoType => "NoType",
            SymbolType::Object => "Object",
            SymbolType::Function => "Function",
            SymbolType::Section => "Section",
            SymbolType::File => "File",
            SymbolType::Common => "Common",
            SymbolType::Tls => "Tls",
            SymbolType::Unknown => "Unknown",
        }
    }
}

/// ELF symbol binding scope.
#[derive(Debug, Clone, Copy, PartialEq, Eq, Structural)]
pub enum SymbolBinding {
    /// Local to compilation unit
    Local,
    /// Globally visible
    Global,
    /// Weak symbol (can be overridden)
    Weak,
    /// Unknown binding
    Unknown,
}

/// `format!("{:?}", b)` for a symbol binding.
pub open spec fn binding_name(b: SymbolBinding) -> Seq<char> {
    match b {
        SymbolBinding::Local => "Local"@,
        SymbolBinding::Global => "Global"@,
        SymbolBinding::Weak => "Weak"@,
        SymbolBinding::Unknown => "Unknown"@,
    }
}

impl SymbolBinding {
    /// The variant's name, as `{:?}` prints it.
    pub fn name(&self) -> (r: &'static str)
        ensures
            r@ == binding_name(*self),
    {
        match self {
            SymbolBinding::Local => "Local",
            SymbolBinding::Global => "Global",
            SymbolBinding::Weak => "Weak",
            SymbolBinding::Unknown => "Unknown",
        }
    }
}

/// ELF symbol visibility.
#[derive(Debug, Clone, Copy, PartialEq, Eq, Structural)]
pub enum SymbolVisibility {
    /// Default visibility
    Default,
    /// Hidden from other modules
    Hidden,
    /// Protected visibility
    Protected,
    /// Internal visibility
    Internal,
}

/// `format!("{:?}", v)` for a symbol visibility.
pub open spec fn visibility_name(v: SymbolVisibility) -> Seq<char> {
    match v {
        SymbolVisibility::Default => "Default"@,
        SymbolVisibility::Hidden => "Hidden"@,
        SymbolVisibility::Protected => "Protected"@,
        SymbolVisibility::Internal => "Internal"@,
    }
}

impl SymbolVisibility {
    /// The variant's name, as `{:?}` prints it.
    pub fn name(&self) -> (r: &'static str)
        ensures
            r@ == visibility_name(*self),
    {
        match self {
            SymbolVisibility::Default => "Default",
            SymbolVisibility::Hidden => "Hidden",
            SymbolVisibility::Protected => "Protected",
            SymbolVisibility::Internal => "Internal",
        }
    }
}

/// Copies an optional string.
pub fn clone_opt_string(s: &Option<String>) -> (r: Option<String>)
    ensures
        r == *s,
{
    match s {
        Some(x) => Some(x.clone()),
        None => None,
    }
}

/// ELF symbol information.
#[derive(Debug)]
pub struct Symbol {
    /// Symbol name
    pub name: String,
    /// Symbol address in memory
    pub address: u64,
    /// Symbol size in bytes
    pub size: u64,
    /// Symbol classification
    pub symbol_type: SymbolType,
    /// Symbol binding scope
    pub binding: SymbolBinding,
    /// Symbol visibility
    pub visibility: SymbolVisibility,
    /// Index in ELF symbol table
    pub section_index: usize,
    /// Source file this symbol originated from (if available)
    pub source_file: Option<String>,
    /// Name of the section holding the symbol (if known)
    pub section_name: Option<String>,
}

impl Clone for Symbol {
    fn clone(&self) -> (r: Self)
        ensures
            r == *self,
    {
        Symbol {
            name: self.name.clone(),
            address: self.address,
            size: self.size,
            symbol_type: self.symbol_type,
            binding: self.binding,
            visibility: self.visibility,
            section_index: self.section_index,
            source_file: clone_opt_string(&self.source_file),
            section_name: clone_opt_string(&self.section_name),
        }
    }
}

/// ELF section with associated symbols.
#[derive(Debug)]
pub struct MemorySection {
    /// Section name (e.g., ".text", ".data", ".bss")
    pub name: String,
    /// Starting address in memory
    pub address: u64,
    /// Section size in bytes
    pub size: u64,
    /// Classified section type
    pub section_type: SectionType,
    /// Symbols contained in this section
    pub symbols: Vec<Symbol>,
}

impl Clone for MemorySection {
    fn clone(&self) -> (r: Self)
        ensures
            r.name == self.name,
            r.address == self.address,
            r.size == self.size,
            r.section_type == self.section_type,
            r.symbols@ == self.symbols@,
    {
        let mut symbols: Vec<Symbol> = Vec::new();
        let mut i: usize = 0;
        while i < self.symbols.len()
            invariant
                i <= self.symbols@.len(),
                symbols@ =~= self.symbols@.take(i as int),
            decreases self.symbols.len() - i,
        {
            symbols.push(self.symbols[i].clone());
            i = i + 1;
        }
        assert(symbols@ =~= self.symbols@);
        MemorySection {
            name: self.name.clone(),
            address: self.address,
            size: self.size,
            section_type: self.section_type.clone(),
            symbols,
        }
    }
}

/// Address one past the end of the section, as a mathematical integer.
pub open spec fn section_end(s: MemorySection) -> int {
    s.address + s.size
}

/// Complete memory layout combining regions and sections.
#[derive(Debug)]
pub struct MemoryLayout {
    /// Memory regions (FLASH, RAM, etc.)
    pub regions: Vec<MemoryRegion>,
    /// ELF sections with symbols
    pub sections: Vec<MemorySection>,
    /// Total Flash memory used in bytes
    pub total_flash_used: u64,
    /// Total RAM used in bytes
    pub total_ram_used: u64,
    /// Total Flash size (if known/configured)
    pub flash_size: Option<u64>,
    /// Total RAM size (if known/configured)
    pub ram_size: Option<u64>,
}

/// Every section of the layout ends at an address that fits in 64 bits.
pub open spec fn sections_fit(sections: Seq<MemorySection>) -> bool {
    forall|i: int| 0 <= i < sections.len() ==> section_end(#[trigger] sections[i]) <= u64::MAX
}

impl MemoryLayout {
    /// Create a new empty memory layout.
    pub fn new() -> (r: Self)
        ensures
            r.regions@.len() == 0,
            r.sections@.len() == 0,
            r.total_flash_used == 0,
            r.total_ram_used == 0,
            r.flash_size is None,
            r.ram_size is None,
    {
        MemoryLayout {
            regions: Vec::new(),
            sections: Vec::new(),
            total_flash_used: 0,
            total_ram_used: 0,
            flash_size: None,
            ram_size: None,
        }
    }
}

impl Default for MemoryLayout {
    fn default() -> (r: Self)
        ensures
            r.regions@.len() == 0,
            r.sections@.len() == 0,
            r.total_flash_used == 0,
            r.total_ram_used == 0,
            r.flash_size is None,
            r.ram_size is None,
    {
        Self::new()
    }
}

// ---------------------------------------------------------------------------
// Vector tables
// ---------------------------------------------------------------------------

/// Kind of an entry in the interrupt vector table.
#[derive(Debug, Clone, Copy, PartialEq, Eq, Structural)]
pub enum VectorEntryType {
    /// Initial stack pointer value (entry 0)
    StackPointer,
    /// ARM core exception (negative IRQ number)
    CoreException,
    /// Device-specific interrupt
    DeviceIRQ,
}

/// Classification of the handler an entry points to.
#[derive(Debug)]
pub enum VectorStatus {
    /// A named handler that is not a default stub
    Implemented,
    /// A known default/stub handler name
    DefaultHandler,
    /// The same handler serves several vectors (primary handler name)
    Shared(String),
    /// NULL or 0xFFFFFFFF address
    Invalid,
    /// No symbol at the handler address
    Unassigned,
}

impl Clone for VectorStatus {
    fn clone(&self) -> (r: Self)
        ensures
            r == *self,
    {
        match self {
            VectorStatus::Implemented => VectorStatus::Implemented,
            VectorStatus::DefaultHandler => VectorStatus::DefaultHandler,
            VectorStatus::Shared(n) => VectorStatus::Shared(n.clone()),
            VectorStatus::Invalid => VectorStatus::Invalid,
            VectorStatus::Unassigned => VectorStatus::Unassigned,
        }
    }
}

/// One entry of the interrupt vector table.
#[derive(Debug)]
pub struct VectorEntry {
    /// Byte offset of the entry in the table
    pub offset: u64,
    /// IRQ number (exception number - 16); 0 for the stack pointer entry
    pub irq_number: i16,
    /// Address stored in the entry
    pub handler_address: u64,
    /// Name of the symbol at the handler address
    pub handler_name: Option<String>,
    /// Size of that symbol
    pub handler_size: u64,
    /// Kind of entry
    pub entry_type: VectorEntryType,
    /// Handler classification
    pub status: VectorStatus,
    /// Human-readable description
    pub description: String,
}

/// A parsed interrupt vector table.
#[derive(Debug)]
pub struct VectorTable {
    /// Address of the table
    pub base_address: u64,
    /// Value of the first entry
    pub initial_stack_pointer: u64,
    /// All entries, the stack pointer entry first
    pub entries: Vec<VectorEntry>,
    /// Table size in bytes
    pub table_size: u64,
    /// MCU family guessed from the number of vectors
    pub mcu_family: Option<String>,
}

/// Statistics about a vector table.
#[derive(Debug)]
pub struct VectorTableStats {
    pub total_vectors: usize,
    pub custom_handlers: usize,
    pub default_handlers: usize,
    pub shared_handlers: usize,
    pub invalid_handlers: usize,
    pub unassigned_handlers: usize,
    pub core_exceptions: usize,
    pub device_irqs: usize,
    pub warnings: Vec<String>,
}


// ---------------------------------------------------------------------------
// Views
// ---------------------------------------------------------------------------

pub open spec fn opt_view(o: Option<String>) -> Option<Seq<char>> {
    match o {
        Some(s) => Some(s@),
        None => None,
    }
}

/// A section type with its custom name as plain characters.
pub enum SectionTypeV {
    Text,
    RoData,
    Data,
    Bss,
    Stack,
    Heap,
    Custom(Seq<char>),
}

pub open spec fn section_type_view(t: SectionType) -> SectionTypeV {
    match t {
        SectionType::Text => SectionTypeV::Text,
        SectionType::RoData => SectionTypeV::RoData,
        SectionType::Data => SectionTypeV::Data,
        SectionType::Bss => SectionTypeV::Bss,
        SectionType::Stack => SectionTypeV::Stack,
        SectionType::Heap => SectionTypeV::Heap,
        SectionType::Custom(n) => SectionTypeV::Custom(n@),
    }
}

/// A symbol as plain values.
pub struct SymbolV {
    pub name: Seq<char>,
    pub address: u64,
    pub size: u64,
    pub symbol_type: SymbolType,
    pub binding: SymbolBinding,
    pub visibility: SymbolVisibility,
    pub section_index: usize,
    pub source_file: Option<Seq<char>>,
    pub section_name: Option<Seq<char>>,
}

impl View for Symbol {
    type V = SymbolV;

    open spec fn view(&self) -> SymbolV {
        SymbolV {
            name: self.name@,
            address: self.address,
            size: self.size,
            symbol_type: self.symbol_type,
            binding: self.binding,
            visibility: self.visibility,
            section_index: self.section_index,
            source_file: opt_view(self.source_file),
            section_name: opt_view(self.section_name),
        }
    }
}

pub open spec fn symbols_view(v: Seq<Symbol>) -> Seq<SymbolV> {
    v.map_values(|s: Symbol| s@)
}

/// A section as plain values.
pub struct SectionV {
    pub name: Seq<char>,
    pub address: u64,
    pub size: u64,
    pub section_type: SectionTypeV,
    pub symbols: Seq<SymbolV>,
}

impl View for MemorySection {
    type V = SectionV;

    open spec fn view(&self) -> SectionV {
        SectionV {
            name: self.name@,
            address: self.address,
            size: self.size,
            section_type: section_type_view(self.section_type),
            symbols: symbols_view(self.symbols@),
        }
    }
}

pub open spec fn sections_view(v: Seq<MemorySection>) -> Seq<SectionV> {
    v.map_values(|s: MemorySection| s@)
}

} // verus!
