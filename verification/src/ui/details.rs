//! Facts the symbol detail views derive from a symbol: its alignment, its
//! place among the symbols by address, and the free space after it.
use vstd::prelude::*;

use crate::models::Symbol;
use crate::text::str_eq;
use crate::ui::explorer::{ExplorerData, data_wf};

verus! {

/// `2^k`.
pub open spec fn two_pow(k: nat) -> nat
    decreases k,
{
    if k == 0 {
        1
    } else {
        2 * two_pow((k - 1) as nat)
    }
}

proof fn lemma_two_pow_mono(i: nat, j: nat)
    requires
        i <= j,
    ensures
        two_pow(i) <= two_pow(j),
    decreases j,
{
    if i < j {
        lemma_two_pow_mono(i, (j - 1) as nat);
    }
}

/// `r` is the alignment shown for `address`: the largest power of two up to
/// 2^16 that divides it, and 0 for address 0.
pub open spec fn is_alignment(address: u64, r: u64) -> bool {
    if address == 0 {
        r == 0
    } else {
        exists|k: nat|
            k <= 16 && r == #[trigger] two_pow(k) && address % r == 0 && (k < 16 ==> address % (2
                * r) as u64 != 0)
    }
}

/// The alignment of a symbol's address (capped at 64 KiB).
pub fn alignment_of(address: u64) -> (r: u64)
    ensures
        is_alignment(address, r),
{
    if address == 0 {
        return 0;
    }
    let mut p: u64 = 1;
    let mut k: u32 = 0;
    while k < 16 && address % (p * 2) == 0
        invariant
            k <= 16,
            p == two_pow(k as nat),
            1 <= p <= 65536,
            address > 0,
            address % p == 0,
        decreases 16 - k,
    {
        proof {
            lemma_two_pow_mono(k as nat, 15);
            assert(two_pow(15) == 32768) by {
                reveal_with_fuel(two_pow, 16);
            }
        }
        p = p * 2;
        k = k + 1;
    }
    assert(k as nat <= 16 && p == two_pow(k as nat) && address % p == 0 && (k < 16 ==> address % (2
        * p) as u64 != 0));
    p
}

/// The free space between a symbol ending at `address + size` (wrapping at
/// 2^64) and the next symbol's address; 0 when they touch or overlap.
pub open spec fn gap_after_spec(next_address: u64, address: u64, size: u64) -> u64 {
    let end = (address + size) % 0x1_0000_0000_0000_0000;
    if next_address > end {
        (next_address - end) as u64
    } else {
        0
    }
}

/// Free space between a symbol and the next one.
pub fn gap_after(next_address: u64, address: u64, size: u64) -> (r: u64)
    ensures
        r == gap_after_spec(next_address, address, size),
{
    let end = address.wrapping_add(size);
    next_address.saturating_sub(end)
}

/// Two symbols are the same when address and name agree.
pub open spec fn same_symbol(a: Symbol, b: Symbol) -> bool {
    a.address == b.address && a.name@ == b.name@
}

/// The symbol at position `p` of the address order.
pub open spec fn at_position(d: ExplorerData, p: int) -> Symbol {
    d.all_symbols@[d.symbols_by_address@[p] as int]
}

impl ExplorerData {
    /// Position of `sym` among the symbols by address: the first one with its
    /// address and name; none when it has no address or size.
    pub fn address_position(&self, sym: &Symbol) -> (r: Option<usize>)
        requires
            data_wf(*self),
        ensures
            match r {
                Some(p) => p < self.symbols_by_address@.len() && same_symbol(at_position(*self, p as int), *sym)
                    && forall|q: int| 0 <= q < p ==> !same_symbol(#[trigger] at_position(*self, q), *sym),
                None => forall|q: int|
                    0 <= q < self.symbols_by_address@.len() ==> !same_symbol(
                        #[trigger] at_position(*self, q),
                        *sym,
                    ),
            },
    {
        let mut i: usize = 0;
        while i < self.symbols_by_address.len()
            invariant
                i <= self.symbols_by_address@.len(),
                data_wf(*self),
                forall|q: int| 0 <= q < i ==> !same_symbol(#[trigger] at_position(*self, q), *sym),
            decreases self.symbols_by_address.len() - i,
        {
            let s = &self.all_symbols[self.symbols_by_address[i]];
            if s.address == sym.address && str_eq(s.name.as_str(), sym.name.as_str()) {
                return Some(i);
            }
            i = i + 1;
        }
        None
    }
}

} // verus!
