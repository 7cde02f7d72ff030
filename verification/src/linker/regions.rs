//! Classifying the memory regions a linker script declares.
use vstd::prelude::*;

use crate::models::MemoryRegion;
use crate::text::{contains, str_contains, str_lowercase, to_lowercase};

verus! {

/// A region whose (lowercased) name mentions RAM, SRAM or TCM.
pub open spec fn is_ram_region(r: MemoryRegion) -> bool {
    let n = str_lowercase(r.name@);
    contains(n, "ram"@) || contains(n, "sram"@) || contains(n, "tcm"@)
}

/// A region whose (lowercased) name mentions Flash or ROM, or that is executable.
pub open spec fn is_flash_region(r: MemoryRegion) -> bool {
    let n = str_lowercase(r.name@);
    contains(n, "flash"@) || contains(n, "rom"@) || contains(r.attributes@, "x"@)
}

/// Whether some region is RAM, and whether some region is Flash.
pub fn region_kinds(regions: &[MemoryRegion]) -> (r: (bool, bool))
    ensures
        r.0 == exists|i: int| 0 <= i < regions@.len() && is_ram_region(#[trigger] regions@[i]),
        r.1 == exists|i: int| 0 <= i < regions@.len() && is_flash_region(#[trigger] regions@[i]),
{
    let mut has_ram = false;
    let mut has_flash = false;
    let mut i: usize = 0;
    while i < regions.len()
        invariant
            i <= regions@.len(),
            has_ram == exists|k: int| 0 <= k < i && is_ram_region(#[trigger] regions@[k]),
            has_flash == exists|k: int| 0 <= k < i && is_flash_region(#[trigger] regions@[k]),
        decreases regions.len() - i,
    {
        let r = &regions[i];
        let name = to_lowercase(r.name.as_str());
        let n = name.as_str();
        let ram = str_contains(n, "ram") || str_contains(n, "sram") || str_contains(n, "tcm");
        let flash = str_contains(n, "flash") || str_contains(n, "rom") || str_contains(
            r.attributes.as_str(),
            "x",
        );
        assert(ram == is_ram_region(regions@[i as int]));
        assert(flash == is_flash_region(regions@[i as int]));
        has_ram = has_ram || ram;
        has_flash = has_flash || flash;
        i = i + 1;
    }
    (has_ram, has_flash)
}

} // verus!
