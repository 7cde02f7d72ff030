//! Utility functions shared across the codebase: size formatting,
//! truncation, Flash/RAM classification and size rounding.
use vstd::prelude::*;

use crate::models::{MemoryLayout, MemorySection, SectionType, section_end, sections_fit};
use crate::text::{
    char_index_at_byte, char_index_of_byte, chars_of, dec, dec_u64, dec_u128, digit_char, push_chars,
    push_str, string_of, sub_chars, utf8_len, utf8_len_exec,
};

verus! {

// ---------------------------------------------------------------------------
// Decimal fixed-point formatting
// ---------------------------------------------------------------------------

/// `num / den` rounded to the nearest integer, ties to the even neighbour.
pub open spec fn round_div(num: nat, den: nat) -> nat
    recommends
        den > 0,
{
    let q = num / den;
    let r = num % den;
    if 2 * r > den {
        q + 1
    } else if 2 * r < den {
        q
    } else if q % 2 == 0 {
        q
    } else {
        q + 1
    }
}

/// The exact quotient `num / den` written with two decimals, rounded to
/// nearest with ties to even.
pub open spec fn fixed2(num: nat, den: nat) -> Seq<char> {
    let h = round_div(num * 100, den);
    dec(h / 100) + seq!['.', digit_char(((h % 100) / 10) as int), digit_char((h % 10) as int)]
}

/// The exact quotient `num / den` written with one decimal, rounded to
/// nearest with ties to even.
pub open spec fn fixed1(num: nat, den: nat) -> Seq<char> {
    let h = round_div(num * 10, den);
    dec(h / 10) + seq!['.', digit_char((h % 10) as int)]
}

fn round_div_exec(num: u128, den: u128) -> (r: u128)
    requires
        den > 0,
        num <= u64::MAX as u128 * 100000,
        den <= u64::MAX,
    ensures
        r == round_div(num as nat, den as nat),
{
    let q = num / den;
    let r = num % den;
    assert(q <= num) by (nonlinear_arith)
        requires
            den > 0,
            q == num / den,
    ;
    if 2 * r > den {
        q + 1
    } else if 2 * r < den {
        q
    } else if q % 2 == 0 {
        q
    } else {
        q + 1
    }
}


/// Writes `num / den` with `places` decimals (1 or 2), rounding ties to even.
fn fixed_exec(num: u128, den: u128, places: u8) -> (r: Vec<char>)
    requires
        den > 0,
        den <= u64::MAX,
        num <= u64::MAX as u128 * 100,
        places == 1 || places == 2,
    ensures
        places == 2 ==> r@ == fixed2(num as nat, den as nat),
        places == 1 ==> r@ == fixed1(num as nat, den as nat),
{
    let scale: u128 = if places == 2 {
        100
    } else {
        10
    };
    let h = round_div_exec(num * scale, den);
    assert(h <= num * scale + 1) by (nonlinear_arith)
        requires
            den > 0,
            h == round_div((num * scale) as nat, den as nat),
    ;
    let whole = h / scale;
    let mut v = dec_u128(whole);
    v.push('.');
    if places == 2 {
        let frac = h % 100;
        let d1 = crate::text::digits_exec((frac / 10) as u64, 10);
        let d2 = crate::text::digits_exec((frac % 10) as u64, 10);
        v.push(d1[0]);
        v.push(d2[0]);
        proof {
            assert(d1@ == seq![digit_char(((h % 100) / 10) as int)]);
            assert(d2@ == seq![digit_char((h % 10) as int)]);
            assert(v@ =~= fixed2(num as nat, den as nat));
        }
    } else {
        let d1 = crate::text::digits_exec((h % 10) as u64, 10);
        v.push(d1[0]);
        proof {
            assert(d1@ == seq![digit_char((h % 10) as int)]);
            assert(v@ =~= fixed1(num as nat, den as nat));
        }
    }
    v
}

/// The exact quotient `num / den` with two decimals (see `fixed2`).
pub fn fixed2_exec(num: u64, den: u64) -> (r: Vec<char>)
    requires
        den > 0,
    ensures
        r@ == fixed2(num as nat, den as nat),
{
    fixed_exec(num as u128, den as u128, 2)
}

/// The exact percentage `num / den * 100` with two decimals (see `fixed2`).
pub fn percent2_exec(num: u64, den: u64) -> (r: Vec<char>)
    requires
        den > 0,
    ensures
        r@ == fixed2(num as nat * 100, den as nat),
{
    fixed_exec(num as u128 * 100, den as u128, 2)
}

/// The exact percentage `used / total * 100` with one decimal (see `fixed1`).
pub open spec fn percent1(used: nat, total: nat) -> Seq<char> {
    fixed1(used * 100, total)
}

/// The exact percentage `used / total * 100` with one decimal.
pub fn percent1_exec(used: u64, total: u64) -> (r: Vec<char>)
    requires
        total > 0,
    ensures
        r@ == percent1(used as nat, total as nat),
{
    let num: u128 = used as u128 * 100;
    let den: u128 = total as u128;
    let h = round_div_exec(num * 10, den);
    assert(h <= num * 10 + 1) by (nonlinear_arith)
        requires
            den > 0,
            h == round_div((num * 10) as nat, den as nat),
    ;
    let whole = h / 10;
    let mut v = dec_u128(whole);
    v.push('.');
    let d1 = crate::text::digits_exec((h % 10) as u64, 10);
    v.push(d1[0]);
    proof {
        assert(d1@ == seq![digit_char((h % 10) as int)]);
        assert(v@ =~= percent1(used as nat, total as nat));
    }
    v
}

// ---------------------------------------------------------------------------
// Human readable sizes
// ---------------------------------------------------------------------------

/// `size` as "N B", "N.NN KB" or "N.NN MB".
pub open spec fn size_human(size: nat) -> Seq<char> {
    if size < 1024 {
        dec(size) + " B"@
    } else if size < 1024 * 1024 {
        fixed2(size, 1024) + " KB"@
    } else {
        fixed2(size, 1024 * 1024) + " MB"@
    }
}

/// Format a size in bytes to human-readable format.
///
/// Below 1024 the exact byte count is printed; above it, KB or MB with two
/// decimals, rounded to nearest with ties to even.
pub fn format_size_human(size: u64) -> (r: String)
    ensures
        r@ == size_human(size as nat),
{
    let mut v: Vec<char>;
    if size < 1024 {
        v = dec_u64(size);
        push_str(&mut v, " B");
    } else if size < 1024 * 1024 {
        v = fixed2_exec(size, 1024);
        push_str(&mut v, " KB");
    } else {
        v = fixed2_exec(size, 1024 * 1024);
        push_str(&mut v, " MB");
    }
    string_of(v.as_slice())
}

// ---------------------------------------------------------------------------
// Truncation
// ---------------------------------------------------------------------------

/// Whether truncating `s` to `max_len` bytes can be done without panicking:
/// either it already fits, or `max_len - 3` is at least zero and falls on a
/// character boundary.
pub open spec fn truncate_ok(s: Seq<char>, max_len: nat) -> bool {
    utf8_len(s) <= max_len || (max_len >= 3 && char_index_of_byte(s, max_len - 3) is Some)
}

/// `s` itself when it has at most `max_len` bytes, else its first
/// `max_len - 3` bytes followed by "...".
pub open spec fn truncated(s: Seq<char>, max_len: nat) -> Seq<char> {
    if utf8_len(s) <= max_len {
        s
    } else {
        s.take(char_index_of_byte(s, max_len - 3)->0) + "..."@
    }
}

/// Whether `truncate(s, max_len)` can cut `s` (see `truncate_ok`).
pub fn can_truncate(s: &str, max_len: usize) -> (r: bool)
    ensures
        r == truncate_ok(s@, max_len as nat),
{
    let c = chars_of(s);
    let n = utf8_len_exec(c.as_slice());
    if n <= max_len as u128 {
        return true;
    }
    if max_len < 3 {
        return false;
    }
    char_index_at_byte(c.as_slice(), (max_len - 3) as u128).is_some()
}

/// Characters of `truncated(s, max_len)`.
pub fn truncate_chars(s: &str, max_len: usize) -> (r: Vec<char>)
    requires
        truncate_ok(s@, max_len as nat),
    ensures
        r@ == truncated(s@, max_len as nat),
{
    let c = chars_of(s);
    let n = utf8_len_exec(c.as_slice());
    if n <= max_len as u128 {
        c
    } else {
        let k = char_index_at_byte(c.as_slice(), (max_len - 3) as u128);
        let k = k.unwrap();
        let mut v = sub_chars(c.as_slice(), 0, k);
        push_str(&mut v, "...");
        assert(c@.subrange(0, k as int) =~= c@.take(k as int));
        v
    }
}

/// Truncate a string to a maximum length in bytes, adding "..." if truncated.
pub fn truncate(s: &str, max_len: usize) -> (r: String)
    requires
        truncate_ok(s@, max_len as nat),
    ensures
        r@ == truncated(s@, max_len as nat),
{
    let v = truncate_chars(s, max_len);
    string_of(v.as_slice())
}

// ---------------------------------------------------------------------------
// Flash / RAM classification
// ---------------------------------------------------------------------------

pub open spec fn is_flash(s: MemorySection) -> bool {
    s.section_type is Text || s.section_type is RoData || s.address < 0x2000_0000
}

pub open spec fn is_ram(s: MemorySection) -> bool {
    s.section_type is Data || s.section_type is Bss || s.section_type is Stack
        || s.section_type is Heap || (s.address >= 0x2000_0000 && s.address < 0x4000_0000)
}

/// Check if a memory section is in Flash region.
///
/// Flash sections are Text or RoData, or have addresses below 0x20000000.
pub fn is_flash_section(section: &MemorySection) -> (r: bool)
    ensures
        r == is_flash(*section),
{
    match section.section_type {
        SectionType::Text | SectionType::RoData => true,
        _ => section.address < 0x2000_0000,
    }
}

/// Check if a memory section is in RAM region.
///
/// RAM sections are Data, Bss, Stack, or Heap, or have addresses in the
/// 0x20000000-0x40000000 range.
pub fn is_ram_section(section: &MemorySection) -> (r: bool)
    ensures
        r == is_ram(*section),
{
    match section.section_type {
        SectionType::Data | SectionType::Bss | SectionType::Stack | SectionType::Heap => true,
        _ => section.address >= 0x2000_0000 && section.address < 0x4000_0000,
    }
}

// ---------------------------------------------------------------------------
// Common sizes
// ---------------------------------------------------------------------------

pub open spec fn mib() -> nat {
    1024 * 1024
}

/// The smallest common embedded memory size (16KB, 32KB, 64KB, 128KB,
/// 256KB, 384KB, 512KB, 1MB, 2MB) that holds `size`, or `size` rounded up
/// to whole megabytes beyond 2MB.
pub open spec fn common_size(size: nat) -> nat {
    if size <= 16 * 1024 {
        16 * 1024
    } else if size <= 32 * 1024 {
        32 * 1024
    } else if size <= 64 * 1024 {
        64 * 1024
    } else if size <= 128 * 1024 {
        128 * 1024
    } else if size <= 256 * 1024 {
        256 * 1024
    } else if size <= 384 * 1024 {
        384 * 1024
    } else if size <= 512 * 1024 {
        512 * 1024
    } else if size <= 1024 * 1024 {
        1024 * 1024
    } else if size <= 2048 * 1024 {
        2048 * 1024
    } else {
        (((size + mib() - 1) as nat) / mib()) * mib()
    }
}

/// Largest size whose rounding to whole megabytes still fits in 64 bits.
pub open spec fn max_roundable() -> nat {
    0xFFFF_FFFF_FFF0_0000
}

/// The common embedded memory sizes: 16KB, 32KB, 64KB, 128KB, 256KB, 384KB,
/// 512KB, 1MB and 2MB.
pub open spec fn is_listed_common_size(c: nat) -> bool {
    ||| c == 16384
    ||| c == 32768
    ||| c == 65536
    ||| c == 131072
    ||| c == 262144
    ||| c == 393216
    ||| c == 524288
    ||| c == 1048576
    ||| c == 2097152
}

/// Up to 2MB a size rounds to the least common size that holds it; beyond
/// 2MB it rounds up to the next whole megabyte.
pub proof fn law_common_size_is_least_that_holds(size: nat)
    ensures
        common_size(size) >= size,
        size <= 2097152 ==> is_listed_common_size(common_size(size)),
        size <= 2097152 ==> forall|c: nat| #[trigger] is_listed_common_size(c) && c >= size ==> common_size(size) <= c,
        size > 2097152 ==> common_size(size) % 1048576 == 0 && common_size(size) < size + 1048576,
{
    if size > 2097152 {
        let m = (size + 1048576 - 1) as nat;
        assert((m / 1048576) * 1048576 >= size && (m / 1048576) * 1048576 < size + 1048576
            && ((m / 1048576) * 1048576) % 1048576 == 0) by (nonlinear_arith)
            requires
                m == size + 1048575,
        ;
    }
}

/// Round a size to the nearest common embedded memory size.
///
/// Common sizes are: 16KB, 32KB, 64KB, 128KB, 256KB, 384KB, 512KB, 1MB, 2MB.
/// Sizes larger than 2MB are rounded to the next MB.
pub fn round_to_common_size(size: u64) -> (r: u64)
    requires
        size <= max_roundable(),
    ensures
        r == common_size(size as nat),
        r >= size,
{
    let sizes: [u64; 9] = [
        16 * 1024,
        32 * 1024,
        64 * 1024,
        128 * 1024,
        256 * 1024,
        384 * 1024,
        512 * 1024,
        1024 * 1024,
        2048 * 1024,
    ];
    let mut i: usize = 0;
    while i < 9
        invariant
            i <= 9,
            sizes@ == seq![
                16384u64,
                32768u64,
                65536u64,
                131072u64,
                262144u64,
                393216u64,
                524288u64,
                1048576u64,
                2097152u64,
            ],
            forall|j: int| 0 <= j < i ==> size > sizes@[j],
        decreases 9 - i,
    {
        if size <= sizes[i] {
            return sizes[i];
        }
        i = i + 1;
    }
    assert(size > 2048 * 1024);
    let m: u64 = 1024 * 1024;
    let q = size / m;
    let rem = size % m;
    let c = if rem != 0 {
        q + 1
    } else {
        q
    };
    assert(c * m <= u64::MAX && c * m == (((size + mib() - 1) as nat) / mib()) * mib() && c * m
        >= size) by (nonlinear_arith)
        requires
            m == mib(),
            m == 1048576,
            q == size / m,
            rem == size % m,
            (rem != 0 && c == q + 1) || (rem == 0 && c == q),
            size <= 0xFFFF_FFFF_FFF0_0000u64,
    ;
    c * m
}

// ---------------------------------------------------------------------------
// Detection of memory sizes from section addresses
// ---------------------------------------------------------------------------

/// Highest section end among sections starting below 0x20000000 (0 if none).
pub open spec fn flash_max_end(s: Seq<MemorySection>) -> int
    decreases s.len(),
{
    if s.len() == 0 {
        0
    } else {
        let rest = flash_max_end(s.drop_last());
        let last = s.last();
        if last.address < 0x2000_0000 && section_end(last) > rest {
            section_end(last)
        } else {
            rest
        }
    }
}

/// Highest section end among sections starting in 0x20000000..0x40000000 (0 if none).
pub open spec fn ram_max_end(s: Seq<MemorySection>) -> int
    decreases s.len(),
{
    if s.len() == 0 {
        0
    } else {
        let rest = ram_max_end(s.drop_last());
        let last = s.last();
        if last.address >= 0x2000_0000 && last.address < 0x4000_0000 && section_end(last)
            > rest {
            section_end(last)
        } else {
            rest
        }
    }
}

/// Flash and RAM sizes detected from section addresses: the highest Flash
/// section end, and the highest RAM section end above 0x20000000, each
/// rounded to a common memory size; `None` where no such section ends above 0.
pub open spec fn detected_sizes(s: Seq<MemorySection>) -> (Option<nat>, Option<nat>) {
    let f = flash_max_end(s);
    let r = ram_max_end(s);
    (
        if f > 0 {
            Some(common_size(f as nat))
        } else {
            None
        },
        if r > 0 {
            Some(common_size((r - 0x2000_0000) as nat))
        } else {
            None
        },
    )
}

proof fn lemma_max_ends_bounds(s: Seq<MemorySection>)
    requires
        sections_fit(s),
    ensures
        0 <= flash_max_end(s) <= u64::MAX,
        0 <= ram_max_end(s) <= u64::MAX,
        ram_max_end(s) == 0 || ram_max_end(s) >= 0x2000_0000,
    decreases s.len(),
{
    if s.len() > 0 {
        assert(sections_fit(s.drop_last())) by {
            assert forall|i: int| 0 <= i < s.drop_last().len() implies section_end(
                #[trigger] s.drop_last()[i],
            ) <= u64::MAX by {
                assert(s.drop_last()[i] == s[i]);
            }
        }
        assert(section_end(s[s.len() - 1]) <= u64::MAX);
        lemma_max_ends_bounds(s.drop_last());
    }
}

/// Inputs for which `detect_memory_ranges` computes without overflow.
pub open spec fn detect_ok(s: Seq<MemorySection>) -> bool {
    sections_fit(s) && flash_max_end(s) <= max_roundable() && ram_max_end(s) - 0x2000_0000
        <= max_roundable()
}

/// Auto-detect Flash and RAM sizes from section addresses.
///
/// Returns (flash_size, ram_size) rounded to common embedded sizes.
pub fn detect_memory_ranges(layout: &MemoryLayout) -> (r: (Option<u64>, Option<u64>))
    requires
        detect_ok(layout.sections@),
    ensures
        r.0 == (match detected_sizes(layout.sections@).0 {
            Some(v) => Some(v as u64),
            None => None::<u64>,
        }),
        r.1 == (match detected_sizes(layout.sections@).1 {
            Some(v) => Some(v as u64),
            None => None::<u64>,
        }),
{
    let mut flash_max: u64 = 0;
    let mut ram_max: u64 = 0;
    let ghost s = layout.sections@;
    let mut i: usize = 0;
    while i < layout.sections.len()
        invariant
            i <= s.len(),
            s == layout.sections@,
            sections_fit(s),
            flash_max == flash_max_end(s.take(i as int)),
            ram_max == ram_max_end(s.take(i as int)),
        decreases s.len() - i,
    {
        let section = &layout.sections[i];
        assert(section_end(s[i as int]) <= u64::MAX);
        let end_addr = section.address + section.size;
        proof {
            assert(s.take(i + 1).drop_last() =~= s.take(i as int));
            assert(s.take(i + 1).last() == s[i as int]);
        }
        if section.address < 0x2000_0000 {
            if end_addr > flash_max {
                flash_max = end_addr;
            }
        } else if section.address >= 0x2000_0000 && section.address < 0x4000_0000 {
            if end_addr > ram_max {
                ram_max = end_addr;
            }
        }
        i = i + 1;
    }
    proof {
        assert(s.take(s.len() as int) =~= s);
        lemma_max_ends_bounds(s);
    }
    let flash_size = if flash_max > 0 {
        Some(round_to_common_size(flash_max))
    } else {
        None
    };
    let ram_size = if ram_max > 0 {
        let ram_used = ram_max - 0x2000_0000;
        Some(round_to_common_size(ram_used))
    } else {
        None
    };
    (flash_size, ram_size)
}

/// Whether `detect_memory_ranges` can compute the sizes of this layout
/// (see `detect_ok`).
pub fn can_detect_memory_ranges(layout: &MemoryLayout) -> (r: bool)
    ensures
        r == detect_ok(layout.sections@),
{
    let ghost s = layout.sections@;
    let mut flash_max: u128 = 0;
    let mut ram_max: u128 = 0;
    let mut i: usize = 0;
    while i < layout.sections.len()
        invariant
            i <= s.len(),
            s == layout.sections@,
            forall|k: int| 0 <= k < i ==> section_end(#[trigger] s[k]) <= u64::MAX,
            flash_max == flash_max_end(s.take(i as int)),
            ram_max == ram_max_end(s.take(i as int)),
            flash_max <= u64::MAX,
            ram_max <= u64::MAX,
        decreases s.len() - i,
    {
        let section = &layout.sections[i];
        let end_addr: u128 = section.address as u128 + section.size as u128;
        proof {
            assert(s.take(i + 1).drop_last() =~= s.take(i as int));
            assert(s.take(i + 1).last() == s[i as int]);
        }
        if end_addr > u64::MAX as u128 {
            assert(!sections_fit(s));
            return false;
        }
        if section.address < 0x2000_0000 {
            if end_addr > flash_max {
                flash_max = end_addr;
            }
        } else if section.address >= 0x2000_0000 && section.address < 0x4000_0000 {
            if end_addr > ram_max {
                ram_max = end_addr;
            }
        }
        i = i + 1;
    }
    assert(s.take(s.len() as int) =~= s);
    assert(sections_fit(s));
    flash_max <= 0xFFFF_FFFF_FFF0_0000 && (ram_max < 0x2000_0000 || ram_max - 0x2000_0000
        <= 0xFFFF_FFFF_FFF0_0000)
}

/// The Flash and RAM sizes: the ones given, and where one is missing, the
/// one detected from the section addresses.
pub fn apply_memory_sizes(layout: &mut MemoryLayout, flash_size: Option<u64>, ram_size: Option<u64>)
    requires
        (flash_size is None || ram_size is None) ==> detect_ok(old(layout).sections@),
    ensures
        final(layout).regions == old(layout).regions,
        final(layout).sections == old(layout).sections,
        final(layout).total_flash_used == old(layout).total_flash_used,
        final(layout).total_ram_used == old(layout).total_ram_used,
        final(layout).flash_size == match flash_size {
            Some(v) => Some(v),
            None => match detected_sizes(old(layout).sections@).0 {
                Some(v) => Some(v as u64),
                None => None::<u64>,
            },
        },
        final(layout).ram_size == match ram_size {
            Some(v) => Some(v),
            None => match detected_sizes(old(layout).sections@).1 {
                Some(v) => Some(v as u64),
                None => None::<u64>,
            },
        },
{
    layout.flash_size = flash_size;
    layout.ram_size = ram_size;
    if layout.flash_size.is_none() || layout.ram_size.is_none() {
        let detected = detect_memory_ranges(layout);
        if layout.flash_size.is_none() {
            layout.flash_size = detected.0;
        }
        if layout.ram_size.is_none() {
            layout.ram_size = detected.1;
        }
    }
}

} // verus!
