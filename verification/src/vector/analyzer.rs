//! Vector table analysis: shared handler detection, statistics and warnings
//! about missing, invalid, oversized or misaligned handlers.
use vstd::prelude::*;

use crate::elf::analyzer::strings_view;
use crate::models::{
    VectorEntry, VectorEntryType, VectorStatus, VectorTable, VectorTableStats, clone_opt_string,
    opt_view,
};
use crate::text::{dec, dec_i64, dec_int, dec_u64, hex8, hex8_u64, push_chars, push_str, string_of};
use crate::utils::percent1;
use crate::vector::database::{ArmDatabase, core_descriptions};
use crate::elf::image::elf_contents;

verus! {

// ---------------------------------------------------------------------------
// Shared handlers
// ---------------------------------------------------------------------------

/// An entry whose handler address takes part in shared handler detection:
/// not the stack pointer, and neither NULL nor 0xFFFFFFFF.
pub open spec fn counted(e: VectorEntry) -> bool {
    e.entry_type != VectorEntryType::StackPointer && e.handler_address != 0 && e.handler_address
        != 0xFFFF_FFFF
}

/// How many of the first `n` entries are counted with handler address `addr`.
pub open spec fn count_at(es: Seq<VectorEntry>, addr: u64, n: int) -> nat
    decreases n,
{
    if n <= 0 {
        0
    } else if counted(es[n - 1]) && es[n - 1].handler_address == addr {
        count_at(es, addr, n - 1) + 1
    } else {
        count_at(es, addr, n - 1)
    }
}

/// First counted entry from `i` on with handler address `addr`.
pub open spec fn first_at(es: Seq<VectorEntry>, addr: u64, i: int) -> Option<int>
    decreases es.len() - i,
{
    if i < 0 || i >= es.len() {
        None
    } else if counted(es[i]) && es[i].handler_address == addr {
        Some(i)
    } else {
        first_at(es, addr, i + 1)
    }
}

/// Several vectors point at the handler address `addr`.
pub open spec fn shared_at(es: Seq<VectorEntry>, addr: u64) -> bool {
    count_at(es, addr, es.len() as int) > 1
}

/// The name shared entries are marked with: the handler name of the first
/// entry at `addr`, else the address in hex.
pub open spec fn primary_name(es: Seq<VectorEntry>, addr: u64) -> Seq<char> {
    match first_at(es, addr, 0) {
        Some(p) => match es[p].handler_name {
            Some(n) => n@,
            None => hex8(addr as nat),
        },
        None => hex8(addr as nat),
    }
}

/// Entry `k` of `es` after marking: an implemented or default handler that
/// several vectors share becomes `Shared(primary name)`; nothing else changes.
pub open spec fn marked_entry_is(m: VectorEntry, es: Seq<VectorEntry>, k: int) -> bool {
    let e = es[k];
    &&& m.offset == e.offset
    &&& m.irq_number == e.irq_number
    &&& m.handler_address == e.handler_address
    &&& m.handler_name == e.handler_name
    &&& m.handler_size == e.handler_size
    &&& m.entry_type == e.entry_type
    &&& m.description == e.description
    &&& if counted(e) && shared_at(es, e.handler_address) && (e.status is Implemented
        || e.status is DefaultHandler) {
        m.status matches VectorStatus::Shared(n) && n@ == primary_name(es, e.handler_address)
    } else {
        m.status == e.status
    }
}

/// `ms` is `es` with shared handlers marked.
pub open spec fn marked(ms: Seq<VectorEntry>, es: Seq<VectorEntry>) -> bool {
    &&& ms.len() == es.len()
    &&& forall|k: int| 0 <= k < es.len() ==> marked_entry_is(#[trigger] ms[k], es, k)
}

/// "Name (IRQ n)" for the entries at `addr` that have a handler name, among the first `n`.
pub open spec fn shared_labels(es: Seq<VectorEntry>, addr: u64, n: int) -> Seq<Seq<char>>
    decreases n,
{
    if n <= 0 {
        Seq::empty()
    } else {
        let rest = shared_labels(es, addr, n - 1);
        let e = es[n - 1];
        if counted(e) && e.handler_address == addr && e.handler_name is Some {
            rest.push(e.handler_name->0@ + " (IRQ "@ + dec_int(e.irq_number as int) + ")"@)
        } else {
            rest
        }
    }
}

/// The strings of `s` separated by `sep`.
pub open spec fn join(s: Seq<Seq<char>>, sep: Seq<char>) -> Seq<char>
    decreases s.len(),
{
    if s.len() == 0 {
        Seq::empty()
    } else if s.len() == 1 {
        s[0]
    } else {
        join(s.drop_last(), sep) + sep + s.last()
    }
}

/// The warning about the handler at `addr`.
pub open spec fn shared_warning(es: Seq<VectorEntry>, addr: u64) -> Seq<char> {
    "Shared handler at "@ + hex8(addr as nat) + ": "@ + dec(count_at(es, addr, es.len() as int))
        + " vectors share the same implementation: "@ + join(
        shared_labels(es, addr, es.len() as int),
        ", "@,
    )
}

/// One warning per shared handler address that some sharing vector names,
/// in the order of the address's first vector, among the first `n` entries.
pub open spec fn shared_warnings(es: Seq<VectorEntry>, n: int) -> Seq<Seq<char>>
    decreases n,
{
    if n <= 0 {
        Seq::empty()
    } else {
        let rest = shared_warnings(es, n - 1);
        let e = es[n - 1];
        if counted(e) && first_at(es, e.handler_address, 0) == Some(n - 1) && shared_at(
            es,
            e.handler_address,
        ) && shared_labels(es, e.handler_address, es.len() as int).len() > 0 {
            rest.push(shared_warning(es, e.handler_address))
        } else {
            rest
        }
    }
}

// ---------------------------------------------------------------------------
// Per-entry warnings
// ---------------------------------------------------------------------------

/// "Description (IRQ n)".
pub open spec fn desc_irq(e: VectorEntry) -> Seq<char> {
    e.description@ + " (IRQ "@ + dec_int(e.irq_number as int) + ")"@
}

/// Warning about a critical exception (Reset to UsageFault) without a real handler.
pub open spec fn critical_warning(e: VectorEntry) -> Seq<Seq<char>> {
    if -15 <= e.irq_number <= -10 {
        match e.status {
            VectorStatus::DefaultHandler => seq![
                "CRITICAL: "@ + desc_irq(e) + " uses default handler - will infinite loop on fault!"@,
            ],
            VectorStatus::Invalid => seq!["CRITICAL: "@ + desc_irq(e) + " has invalid/NULL handler - will crash!"@],
            VectorStatus::Unassigned => seq!["WARNING: "@ + desc_irq(e) + " has no named handler"@],
            _ => Seq::empty(),
        }
    } else {
        Seq::empty()
    }
}

/// Error about a NULL or 0xFFFFFFFF handler address.
pub open spec fn invalid_warning(e: VectorEntry) -> Seq<Seq<char>> {
    if e.entry_type == VectorEntryType::StackPointer {
        Seq::empty()
    } else if e.handler_address == 0 {
        seq!["ERROR: "@ + desc_irq(e) + " has NULL handler address"@]
    } else if e.handler_address == 0xFFFF_FFFF {
        seq!["ERROR: "@ + desc_irq(e) + " has invalid handler address (0xFFFFFFFF)"@]
    } else {
        Seq::empty()
    }
}

/// Handlers above this size get a warning.
pub const LARGE_HANDLER_THRESHOLD: u64 = 512;

/// Warning about a handler larger than the threshold.
pub open spec fn oversized_warning(e: VectorEntry) -> Seq<Seq<char>> {
    if e.handler_size > LARGE_HANDLER_THRESHOLD {
        let name = match e.handler_name {
            Some(n) => n@,
            None => "Unknown"@,
        };
        seq![
            "WARNING: "@ + name + " handler is very large ("@ + dec(e.handler_size as nat)
                + " bytes) - consider offloading work to a task"@,
        ]
    } else {
        Seq::empty()
    }
}

pub open spec fn critical_fn() -> spec_fn(VectorEntry) -> Seq<Seq<char>> {
    |e: VectorEntry| critical_warning(e)
}

pub open spec fn invalid_fn() -> spec_fn(VectorEntry) -> Seq<Seq<char>> {
    |e: VectorEntry| invalid_warning(e)
}

pub open spec fn oversized_fn() -> spec_fn(VectorEntry) -> Seq<Seq<char>> {
    |e: VectorEntry| oversized_warning(e)
}

/// The warnings `f` gives for each entry, in order.
pub open spec fn per_entry(es: Seq<VectorEntry>, f: spec_fn(VectorEntry) -> Seq<Seq<char>>) -> Seq<Seq<char>>
    decreases es.len(),
{
    if es.len() == 0 {
        Seq::empty()
    } else {
        per_entry(es.drop_last(), f) + f(es.last())
    }
}

/// `n.next_power_of_two()` as an optimized build computes it (0 past 2^63).
pub open spec fn next_pow2(n: u64) -> u64 {
    next_pow2_from(n, 1)
}

/// The least power of two that is at least `n`, searching upward from `p`.
pub open spec fn next_pow2_from(n: u64, p: nat) -> u64
    decreases 0x1_0000_0000_0000_0000 - p,
{
    if p == 0 {
        0
    } else if p >= n {
        p as u64
    } else if p >= 0x8000_0000_0000_0000 {
        0
    } else {
        next_pow2_from(n, 2 * p)
    }
}

/// Error about a table whose base address is not a multiple of the least
/// power of two that is at least its size.
pub open spec fn alignment_warning(t: VectorTable) -> Seq<Seq<char>> {
    let a = next_pow2(t.table_size);
    let aligned = if a == 0 {
        t.base_address == 0
    } else {
        t.base_address % a == 0
    };
    if aligned {
        Seq::empty()
    } else {
        seq![
            "ERROR: Vector table at "@ + hex8(t.base_address as nat)
                + " is misaligned! Required alignment: "@ + dec(a as nat) + " bytes (table size: "@
                + dec(t.table_size as nat) + " bytes)"@,
        ]
    }
}

/// All warnings about a (marked) table: shared handlers, critical
/// exceptions, invalid addresses, oversized handlers, alignment.
pub open spec fn table_warnings(t: VectorTable) -> Seq<Seq<char>> {
    let es = t.entries@;
    shared_warnings(es, es.len() as int) + per_entry(es, critical_fn()) + per_entry(es, invalid_fn())
        + per_entry(es, oversized_fn()) + alignment_warning(t)
}

// ---------------------------------------------------------------------------
// Statistics
// ---------------------------------------------------------------------------

/// How many entries satisfy `p`.
pub open spec fn count_where(es: Seq<VectorEntry>, p: spec_fn(VectorEntry) -> bool) -> nat
    decreases es.len(),
{
    if es.len() == 0 {
        0
    } else {
        count_where(es.drop_last(), p) + if p(es.last()) {
            1nat
        } else {
            0nat
        }
    }
}

pub open spec fn not_sp(e: VectorEntry) -> bool {
    e.entry_type != VectorEntryType::StackPointer
}

pub open spec fn custom_p() -> spec_fn(VectorEntry) -> bool {
    |e: VectorEntry| not_sp(e) && e.status is Implemented
}

pub open spec fn default_p() -> spec_fn(VectorEntry) -> bool {
    |e: VectorEntry| not_sp(e) && e.status is DefaultHandler
}

pub open spec fn shared_p() -> spec_fn(VectorEntry) -> bool {
    |e: VectorEntry| not_sp(e) && e.status is Shared
}

pub open spec fn invalid_p() -> spec_fn(VectorEntry) -> bool {
    |e: VectorEntry| not_sp(e) && e.status is Invalid
}

pub open spec fn unassigned_p() -> spec_fn(VectorEntry) -> bool {
    |e: VectorEntry| not_sp(e) && e.status is Unassigned
}

pub open spec fn core_p() -> spec_fn(VectorEntry) -> bool {
    |e: VectorEntry| e.entry_type == VectorEntryType::CoreException
}

pub open spec fn device_p() -> spec_fn(VectorEntry) -> bool {
    |e: VectorEntry| e.entry_type == VectorEntryType::DeviceIRQ
}

/// The statistics of a (marked) table.
pub open spec fn stats_are(s: VectorTableStats, t: VectorTable) -> bool {
    let es = t.entries@;
    &&& s.total_vectors == es.len()
    &&& s.custom_handlers == count_where(es, custom_p())
    &&& s.default_handlers == count_where(es, default_p())
    &&& s.shared_handlers == count_where(es, shared_p())
    &&& s.invalid_handlers == count_where(es, invalid_p())
    &&& s.unassigned_handlers == count_where(es, unassigned_p())
    &&& s.core_exceptions == count_where(es, core_p())
    &&& s.device_irqs == count_where(es, device_p())
    &&& strings_view(s.warnings@) == table_warnings(t)
}

/// Analyzer for vector table statistics and warnings.
pub struct VectorAnalyzer {
    db: ArmDatabase,
}

fn counted_exec(e: &VectorEntry) -> (r: bool)
    ensures
        r == counted(*e),
{
    e.entry_type != VectorEntryType::StackPointer && e.handler_address != 0 && e.handler_address
        != 0xFFFF_FFFF
}

/// `count_at` over all entries.
fn count_at_exec(es: &Vec<VectorEntry>, addr: u64) -> (r: usize)
    ensures
        r == count_at(es@, addr, es@.len() as int),
{
    let mut c: usize = 0;
    let mut i: usize = 0;
    while i < es.len()
        invariant
            i <= es@.len(),
            c == count_at(es@, addr, i as int),
            c <= i,
        decreases es.len() - i,
    {
        if counted_exec(&es[i]) && es[i].handler_address == addr {
            c = c + 1;
        }
        i = i + 1;
    }
    c
}

/// `first_at` from the first entry.
fn first_at_exec(es: &Vec<VectorEntry>, addr: u64) -> (r: Option<usize>)
    ensures
        match r {
            Some(p) => p < es@.len() && first_at(es@, addr, 0) == Some(p as int),
            None => first_at(es@, addr, 0) is None,
        },
{
    let mut i: usize = 0;
    while i < es.len()
        invariant
            i <= es@.len(),
            first_at(es@, addr, 0) == first_at(es@, addr, i as int),
        decreases es.len() - i,
    {
        if counted_exec(&es[i]) && es[i].handler_address == addr {
            return Some(i);
        }
        i = i + 1;
    }
    None
}

/// `primary_name` as a string.
fn primary_name_exec(es: &Vec<VectorEntry>, addr: u64) -> (r: String)
    ensures
        r@ == primary_name(es@, addr),
{
    match first_at_exec(es, addr) {
        Some(p) => match &es[p].handler_name {
            Some(n) => n.clone(),
            None => string_of(hex8_u64(addr).as_slice()),
        },
        None => string_of(hex8_u64(addr).as_slice()),
    }
}

/// A copy of `e` with another status.
fn with_status(e: &VectorEntry, status: VectorStatus) -> (r: VectorEntry)
    ensures
        r.offset == e.offset,
        r.irq_number == e.irq_number,
        r.handler_address == e.handler_address,
        r.handler_name == e.handler_name,
        r.handler_size == e.handler_size,
        r.entry_type == e.entry_type,
        r.description == e.description,
        r.status == status,
{
    VectorEntry {
        offset: e.offset,
        irq_number: e.irq_number,
        handler_address: e.handler_address,
        handler_name: clone_opt_string(&e.handler_name),
        handler_size: e.handler_size,
        entry_type: e.entry_type,
        status,
        description: e.description.clone(),
    }
}

/// "Description (IRQ n)".
fn desc_irq_exec(e: &VectorEntry) -> (r: Vec<char>)
    ensures
        r@ == desc_irq(*e),
{
    let mut v: Vec<char> = Vec::new();
    push_str(&mut v, e.description.as_str());
    push_str(&mut v, " (IRQ ");
    let d = dec_i64(e.irq_number as i64);
    push_chars(&mut v, d.as_slice());
    push_str(&mut v, ")");
    v
}

/// `prefix`, then `mid`, then `suffix`.
fn framed(prefix: &str, mid: &[char], suffix: &str) -> (r: String)
    ensures
        r@ == prefix@ + mid@ + suffix@,
{
    let mut v: Vec<char> = Vec::new();
    push_str(&mut v, prefix);
    push_chars(&mut v, mid);
    push_str(&mut v, suffix);
    string_of(v.as_slice())
}

/// The strings `s` joined with ", ".
fn join_exec(s: &Vec<Vec<char>>) -> (r: Vec<char>)
    ensures
        r@ == join(crate::diff::names::names_view(s@), ", "@),
{
    let ghost n = crate::diff::names::names_view(s@);
    let mut v: Vec<char> = Vec::new();
    let mut i: usize = 0;
    while i < s.len()
        invariant
            i <= s@.len(),
            n == crate::diff::names::names_view(s@),
            v@ == join(n.take(i as int), ", "@),
        decreases s.len() - i,
    {
        assert(n.take(i + 1).drop_last() =~= n.take(i as int));
        if i > 0 {
            push_str(&mut v, ", ");
        }
        push_chars(&mut v, s[i].as_slice());
        proof {
            if i == 0 {
                assert(n.take(1) =~= seq![s@[0]@]);
            }
        }
        i = i + 1;
    }
    assert(n.take(s@.len() as int) =~= n);
    v
}

/// Marks the implemented and default handlers that several vectors share.
fn mark_shared_handlers(vector_table: &mut VectorTable)
    ensures
        marked(final(vector_table).entries@, old(vector_table).entries@),
        final(vector_table).base_address == old(vector_table).base_address,
        final(vector_table).initial_stack_pointer == old(vector_table).initial_stack_pointer,
        final(vector_table).table_size == old(vector_table).table_size,
        final(vector_table).mcu_family == old(vector_table).mcu_family,
{
    let ghost es = vector_table.entries@;
    let mut out: Vec<VectorEntry> = Vec::new();
    let mut k: usize = 0;
    while k < vector_table.entries.len()
        invariant
            k <= es.len(),
            es == vector_table.entries@,
            out@.len() == k,
            forall|j: int| 0 <= j < k ==> marked_entry_is(#[trigger] out@[j], es, j),
        decreases es.len() - k,
    {
        let e = &vector_table.entries[k];
        let shareable = match &e.status {
            VectorStatus::Implemented => true,
            VectorStatus::DefaultHandler => true,
            _ => false,
        };
        let status = if counted_exec(e) && count_at_exec(&vector_table.entries, e.handler_address) > 1
            && shareable {
            VectorStatus::Shared(primary_name_exec(&vector_table.entries, e.handler_address))
        } else {
            e.status.clone()
        };
        out.push(with_status(e, status));
        k = k + 1;
    }
    vector_table.entries = out;
}

/// `shared_labels` over all entries.
fn shared_labels_exec(es: &Vec<VectorEntry>, addr: u64) -> (r: Vec<Vec<char>>)
    ensures
        crate::diff::names::names_view(r@) == shared_labels(es@, addr, es@.len() as int),
{
    let mut out: Vec<Vec<char>> = Vec::new();
    let mut i: usize = 0;
    while i < es.len()
        invariant
            i <= es@.len(),
            crate::diff::names::names_view(out@) == shared_labels(es@, addr, i as int),
        decreases es.len() - i,
    {
        let e = &es[i];
        if counted_exec(e) && e.handler_address == addr {
            match &e.handler_name {
                Some(n) => {
                    let mut v: Vec<char> = Vec::new();
                    push_str(&mut v, n.as_str());
                    push_str(&mut v, " (IRQ ");
                    let d = dec_i64(e.irq_number as i64);
                    push_chars(&mut v, d.as_slice());
                    push_str(&mut v, ")");
                    let ghost before = out@;
                    out.push(v);
                    assert(crate::diff::names::names_view(out@) =~= crate::diff::names::names_view(
                        before,
                    ).push(v@));
                },
                None => {},
            }
        }
        i = i + 1;
    }
    out
}

/// One warning per handler address that several vectors share.
fn detect_shared_handlers(es: &Vec<VectorEntry>) -> (r: Vec<String>)
    ensures
        strings_view(r@) == shared_warnings(es@, es@.len() as int),
{
    let mut out: Vec<String> = Vec::new();
    let mut k: usize = 0;
    while k < es.len()
        invariant
            k <= es@.len(),
            strings_view(out@) == shared_warnings(es@, k as int),
        decreases es.len() - k,
    {
        let e = &es[k];
        if counted_exec(e) {
            let addr = e.handler_address;
            let first = first_at_exec(es, addr);
            let count = count_at_exec(es, addr);
            if first == Some(k) && count > 1 {
                let labels = shared_labels_exec(es, addr);
                if labels.len() > 0 {
                    proof {
                        assert(crate::diff::names::names_view(labels@).len() == labels@.len());
                    }
                    let mut v: Vec<char> = Vec::new();
                    push_str(&mut v, "Shared handler at ");
                    let h = hex8_u64(addr);
                    push_chars(&mut v, h.as_slice());
                    push_str(&mut v, ": ");
                    let c = dec_u64(count as u64);
                    push_chars(&mut v, c.as_slice());
                    push_str(&mut v, " vectors share the same implementation: ");
                    let j = join_exec(&labels);
                    push_chars(&mut v, j.as_slice());
                    let w = string_of(v.as_slice());
                    let ghost before = out@;
                    out.push(w);
                    assert(strings_view(out@) =~= strings_view(before).push(w@));
                } else {
                    assert(crate::diff::names::names_view(labels@).len() == labels@.len());
                }
            }
        }
        k = k + 1;
    }
    out
}

fn critical_exec(e: &VectorEntry) -> (r: Vec<String>)
    ensures
        strings_view(r@) == critical_warning(*e),
{
    let mut out: Vec<String> = Vec::new();
    if -15 <= e.irq_number && e.irq_number <= -10 {
        let d = desc_irq_exec(e);
        match &e.status {
            VectorStatus::DefaultHandler => {
                out.push(framed("CRITICAL: ", d.as_slice(), " uses default handler - will infinite loop on fault!"));
            },
            VectorStatus::Invalid => {
                out.push(framed("CRITICAL: ", d.as_slice(), " has invalid/NULL handler - will crash!"));
            },
            VectorStatus::Unassigned => {
                out.push(framed("WARNING: ", d.as_slice(), " has no named handler"));
            },
            _ => {},
        }
    }
    assert(strings_view(out@) =~= critical_warning(*e));
    out
}

fn invalid_exec(e: &VectorEntry) -> (r: Vec<String>)
    ensures
        strings_view(r@) == invalid_warning(*e),
{
    let mut out: Vec<String> = Vec::new();
    if e.entry_type != VectorEntryType::StackPointer {
        if e.handler_address == 0 {
            let d = desc_irq_exec(e);
            out.push(framed("ERROR: ", d.as_slice(), " has NULL handler address"));
        } else if e.handler_address == 0xFFFF_FFFF {
            let d = desc_irq_exec(e);
            out.push(framed("ERROR: ", d.as_slice(), " has invalid handler address (0xFFFFFFFF)"));
        }
    }
    assert(strings_view(out@) =~= invalid_warning(*e));
    out
}

fn oversized_exec(e: &VectorEntry) -> (r: Vec<String>)
    ensures
        strings_view(r@) == oversized_warning(*e),
{
    let mut out: Vec<String> = Vec::new();
    if e.handler_size > LARGE_HANDLER_THRESHOLD {
        let mut v: Vec<char> = Vec::new();
        match &e.handler_name {
            Some(n) => push_str(&mut v, n.as_str()),
            None => push_str(&mut v, "Unknown"),
        }
        push_str(&mut v, " handler is very large (");
        let d = dec_u64(e.handler_size);
        push_chars(&mut v, d.as_slice());
        let w = framed("WARNING: ", v.as_slice(), " bytes) - consider offloading work to a task");
        assert(w@ =~= oversized_warning(*e)[0]);
        out.push(w);
    }
    assert(strings_view(out@) =~= oversized_warning(*e));
    out
}

/// Appends `w` to `out`.
fn append_strings(out: &mut Vec<String>, w: Vec<String>)
    ensures
        strings_view(final(out)@) == strings_view(old(out)@) + strings_view(w@),
{
    let mut w = w;
    let ghost a = out@;
    let ghost b = w@;
    out.append(&mut w);
    assert(strings_view(out@) =~= strings_view(a) + strings_view(b));
}

impl VectorAnalyzer {
    /// The database of exception names the analyzer holds.
    pub closed spec fn database_spec(&self) -> ArmDatabase {
        self.db
    }

    /// Create a new vector analyzer, holding the ARM core exception names.
    pub fn new() -> (r: Self)
        ensures
            r.database_spec().descriptions() == core_descriptions(),
    {
        VectorAnalyzer { db: ArmDatabase::new() }
    }

    /// Check for critical exception handlers that should be implemented.
    fn check_critical_handlers(&self, vector_table: &VectorTable) -> (r: Vec<String>)
        ensures
            strings_view(r@) == per_entry(vector_table.entries@, critical_fn()),
    {
        let ghost es = vector_table.entries@;
        let mut out: Vec<String> = Vec::new();
        let mut i: usize = 0;
        while i < vector_table.entries.len()
            invariant
                i <= es.len(),
                es == vector_table.entries@,
                strings_view(out@) == per_entry(es.take(i as int), critical_fn()),
            decreases es.len() - i,
        {
            assert(es.take(i + 1).drop_last() =~= es.take(i as int));
            let w = critical_exec(&vector_table.entries[i]);
            append_strings(&mut out, w);
            i = i + 1;
        }
        assert(es.take(es.len() as int) =~= es);
        out
    }

    /// Check for invalid handler addresses.
    fn check_invalid_handlers(&self, vector_table: &VectorTable) -> (r: Vec<String>)
        ensures
            strings_view(r@) == per_entry(vector_table.entries@, invalid_fn()),
    {
        let ghost es = vector_table.entries@;
        let mut out: Vec<String> = Vec::new();
        let mut i: usize = 0;
        while i < vector_table.entries.len()
            invariant
                i <= es.len(),
                es == vector_table.entries@,
                strings_view(out@) == per_entry(es.take(i as int), invalid_fn()),
            decreases es.len() - i,
        {
            assert(es.take(i + 1).drop_last() =~= es.take(i as int));
            let w = invalid_exec(&vector_table.entries[i]);
            append_strings(&mut out, w);
            i = i + 1;
        }
        assert(es.take(es.len() as int) =~= es);
        out
    }

    /// Check for handlers that are unusually large.
    fn check_oversized_handlers(&self, vector_table: &VectorTable) -> (r: Vec<String>)
        ensures
            strings_view(r@) == per_entry(vector_table.entries@, oversized_fn()),
    {
        let ghost es = vector_table.entries@;
        let mut out: Vec<String> = Vec::new();
        let mut i: usize = 0;
        while i < vector_table.entries.len()
            invariant
                i <= es.len(),
                es == vector_table.entries@,
                strings_view(out@) == per_entry(es.take(i as int), oversized_fn()),
            decreases es.len() - i,
        {
            assert(es.take(i + 1).drop_last() =~= es.take(i as int));
            let w = oversized_exec(&vector_table.entries[i]);
            append_strings(&mut out, w);
            i = i + 1;
        }
        assert(es.take(es.len() as int) =~= es);
        out
    }

    /// Check vector table alignment: the base must be a multiple of the
    /// least power of two that is at least the table size.
    fn check_alignment(&self, vector_table: &VectorTable) -> (r: Option<String>)
        ensures
            match r {
                Some(w) => alignment_warning(*vector_table) == seq![w@],
                None => alignment_warning(*vector_table).len() == 0,
            },
    {
        let table_size = vector_table.table_size;
        let required_alignment = next_power_of_two(table_size);
        let aligned = if required_alignment == 0 {
            vector_table.base_address == 0
        } else {
            vector_table.base_address % required_alignment == 0
        };
        if aligned {
            None
        } else {
            let mut v: Vec<char> = Vec::new();
            push_str(&mut v, "ERROR: Vector table at ");
            let h = hex8_u64(vector_table.base_address);
            push_chars(&mut v, h.as_slice());
            push_str(&mut v, " is misaligned! Required alignment: ");
            let a = dec_u64(required_alignment);
            push_chars(&mut v, a.as_slice());
            push_str(&mut v, " bytes (table size: ");
            let t = dec_u64(table_size);
            push_chars(&mut v, t.as_slice());
            push_str(&mut v, " bytes)");
            Some(string_of(v.as_slice()))
        }
    }
}

/// `n.next_power_of_two()`, 0 when that overflows.
fn next_power_of_two(n: u64) -> (r: u64)
    ensures
        r == next_pow2(n),
{
    let mut p: u64 = 1;
    while p < n && p < 0x8000_0000_0000_0000
        invariant
            1 <= p,
            next_pow2(n) == next_pow2_from(n, p as nat),
        decreases 0x1_0000_0000_0000_0000 - p,
    {
        p = p * 2;
    }
    if p >= n {
        p
    } else {
        0
    }
}

/// The exact percentage `c / t * 100` with one decimal (NaN for 0/0, inf
/// for c/0).
pub open spec fn pct_text(c: nat, t: nat) -> Seq<char> {
    if t == 0 {
        if c == 0 {
            "NaN"@
        } else {
            "inf"@
        }
    } else {
        percent1(c, t)
    }
}

/// "  - warning" lines.
pub open spec fn bullets(ws: Seq<Seq<char>>) -> Seq<char>
    decreases ws.len(),
{
    if ws.len() == 0 {
        Seq::empty()
    } else {
        bullets(ws.drop_last()) + "  - "@ + ws.last() + "\n"@
    }
}

/// A line "label count".
pub open spec fn count_line(label: Seq<char>, n: nat) -> Seq<char> {
    label + dec(n) + "\n"@
}

/// A line "label count (percent%)".
pub open spec fn pct_line(label: Seq<char>, n: nat, total: nat) -> Seq<char> {
    label + dec(n) + " ("@ + pct_text(n, total) + "%)\n"@
}

/// The statistics summary text.
pub open spec fn stats_text(s: VectorTableStats) -> Seq<char> {
    count_line("Total Vectors:       "@, s.total_vectors as nat) + pct_line(
        "Custom Handlers:     "@,
        s.custom_handlers as nat,
        s.total_vectors as nat,
    ) + pct_line("Default Handlers:    "@, s.default_handlers as nat, s.total_vectors as nat)
        + pct_line("Shared Handlers:     "@, s.shared_handlers as nat, s.total_vectors as nat)
        + count_line("Invalid Handlers:    "@, s.invalid_handlers as nat) + count_line(
        "Unassigned Handlers: "@,
        s.unassigned_handlers as nat,
    ) + count_line("\nCore Exceptions:     "@, s.core_exceptions as nat) + count_line(
        "Device IRQs:         "@,
        s.device_irqs as nat,
    ) + if s.warnings@.len() == 0 {
        Seq::<char>::empty()
    } else {
        "Warnings:\n"@ + bullets(strings_view(s.warnings@))
    }
}

fn push_count_line(v: &mut Vec<char>, label: &str, n: usize)
    ensures
        final(v)@ == old(v)@ + count_line(label@, n as nat),
{
    push_str(v, label);
    let d = dec_u64(n as u64);
    push_chars(v, d.as_slice());
    push_str(v, "\n");
    assert(final(v)@ =~= old(v)@ + count_line(label@, n as nat));
}

fn push_pct_line(v: &mut Vec<char>, label: &str, n: usize, total: usize)
    ensures
        final(v)@ == old(v)@ + pct_line(label@, n as nat, total as nat),
{
    push_str(v, label);
    let d = dec_u64(n as u64);
    push_chars(v, d.as_slice());
    push_str(v, " (");
    if total == 0 {
        if n == 0 {
            push_str(v, "NaN");
        } else {
            push_str(v, "inf");
        }
    } else {
        let p = crate::utils::percent1_exec(n as u64, total as u64);
        push_chars(v, p.as_slice());
    }
    push_str(v, "%)\n");
    assert(final(v)@ =~= old(v)@ + pct_line(label@, n as nat, total as nat));
}

impl VectorAnalyzer {
    /// Analyze a vector table: mark shared handlers in it, then count
    /// handlers by status and type and collect the warnings.
    pub fn analyze(&self, vector_table: &mut VectorTable) -> (r: VectorTableStats)
        ensures
            marked(final(vector_table).entries@, old(vector_table).entries@),
            final(vector_table).base_address == old(vector_table).base_address,
            final(vector_table).initial_stack_pointer == old(vector_table).initial_stack_pointer,
            final(vector_table).table_size == old(vector_table).table_size,
            final(vector_table).mcu_family == old(vector_table).mcu_family,
            stats_are(r, *final(vector_table)),
    {
        mark_shared_handlers(vector_table);
        let ghost es = vector_table.entries@;
        let mut custom: usize = 0;
        let mut default: usize = 0;
        let mut shared: usize = 0;
        let mut invalid: usize = 0;
        let mut unassigned: usize = 0;
        let mut core: usize = 0;
        let mut device: usize = 0;
        let mut i: usize = 0;
        while i < vector_table.entries.len()
            invariant
                i <= es.len(),
                es == vector_table.entries@,
                custom == count_where(es.take(i as int), custom_p()),
                default == count_where(es.take(i as int), default_p()),
                shared == count_where(es.take(i as int), shared_p()),
                invalid == count_where(es.take(i as int), invalid_p()),
                unassigned == count_where(es.take(i as int), unassigned_p()),
                core == count_where(es.take(i as int), core_p()),
                device == count_where(es.take(i as int), device_p()),
                custom <= i && default <= i && shared <= i && invalid <= i && unassigned <= i
                    && core <= i && device <= i,
            decreases es.len() - i,
        {
            assert(es.take(i + 1).drop_last() =~= es.take(i as int));
            let e = &vector_table.entries[i];
            if e.entry_type != VectorEntryType::StackPointer {
                match &e.status {
                    VectorStatus::Implemented => custom = custom + 1,
                    VectorStatus::DefaultHandler => default = default + 1,
                    VectorStatus::Shared(_) => shared = shared + 1,
                    VectorStatus::Invalid => invalid = invalid + 1,
                    VectorStatus::Unassigned => unassigned = unassigned + 1,
                }
            }
            match e.entry_type {
                VectorEntryType::CoreException => core = core + 1,
                VectorEntryType::DeviceIRQ => device = device + 1,
                VectorEntryType::StackPointer => {},
            }
            i = i + 1;
        }
        assert(es.take(es.len() as int) =~= es);
        let mut warnings = detect_shared_handlers(&vector_table.entries);
        append_strings(&mut warnings, self.check_critical_handlers(vector_table));
        append_strings(&mut warnings, self.check_invalid_handlers(vector_table));
        append_strings(&mut warnings, self.check_oversized_handlers(vector_table));
        let ghost before = warnings@;
        match self.check_alignment(vector_table) {
            Some(w) => {
                warnings.push(w);
                assert(strings_view(warnings@) =~= strings_view(before) + alignment_warning(*vector_table));
            },
            None => {
                assert(strings_view(warnings@) =~= strings_view(before) + alignment_warning(*vector_table));
            },
        }
        VectorTableStats {
            total_vectors: vector_table.entries.len(),
            custom_handlers: custom,
            default_handlers: default,
            shared_handlers: shared,
            invalid_handlers: invalid,
            unassigned_handlers: unassigned,
            core_exceptions: core,
            device_irqs: device,
            warnings,
        }
    }

    /// Statistics summary as text.
    pub fn format_stats(&self, stats: &VectorTableStats) -> (r: String)
        ensures
            r@ == stats_text(*stats),
    {
        let mut v: Vec<char> = Vec::new();
        push_count_line(&mut v, "Total Vectors:       ", stats.total_vectors);
        push_pct_line(&mut v, "Custom Handlers:     ", stats.custom_handlers, stats.total_vectors);
        push_pct_line(&mut v, "Default Handlers:    ", stats.default_handlers, stats.total_vectors);
        push_pct_line(&mut v, "Shared Handlers:     ", stats.shared_handlers, stats.total_vectors);
        push_count_line(&mut v, "Invalid Handlers:    ", stats.invalid_handlers);
        push_count_line(&mut v, "Unassigned Handlers: ", stats.unassigned_handlers);
        push_count_line(&mut v, "\nCore Exceptions:     ", stats.core_exceptions);
        push_count_line(&mut v, "Device IRQs:         ", stats.device_irqs);
        let ghost head = v@;
        if stats.warnings.len() > 0 {
            push_str(&mut v, "Warnings:\n");
            let ghost ws = strings_view(stats.warnings@);
            let ghost start = v@;
            let mut i: usize = 0;
            while i < stats.warnings.len()
                invariant
                    i <= stats.warnings@.len(),
                    ws == strings_view(stats.warnings@),
                    v@ == start + bullets(ws.take(i as int)),
                decreases stats.warnings.len() - i,
            {
                assert(ws.take(i + 1).drop_last() =~= ws.take(i as int));
                push_str(&mut v, "  - ");
                push_str(&mut v, stats.warnings[i].as_str());
                push_str(&mut v, "\n");
                assert(v@ =~= start + bullets(ws.take(i + 1)));
                i = i + 1;
            }
            assert(ws.take(ws.len() as int) =~= ws);
            assert(v@ =~= head + ("Warnings:\n"@ + bullets(ws)));
        } else {
            assert(v@ =~= head + Seq::<char>::empty());
        }
        assert(v@ =~= stats_text(*stats));
        string_of(v.as_slice())
    }
}

impl Default for VectorAnalyzer {
    fn default() -> (r: Self) {
        Self::new()
    }
}

/// `t` is the vector table read from the ELF file `bytes` with symbols `s`.
pub open spec fn table_read(bytes: Seq<u8>, s: Seq<crate::models::Symbol>, t: VectorTable) -> bool {
    elf_contents(bytes) matches Some(img) && crate::vector::parser::table_in_bounds(img.sections, bytes)
        && crate::vector::parser::parse_result_is(Ok(Some(t)), img.sections, bytes, s)
}

/// Read and analyse the vector table of an ELF file, when it has a readable
/// one that lies within the file: the table with shared handlers marked, and
/// its statistics. `None` otherwise, in particular when the table's section
/// runs past the end of the file.
pub fn read_vector_table(elf_bytes: &[u8], symbols: &[crate::models::Symbol]) -> (r: Option<(VectorTable, VectorTableStats)>)
    ensures
        r matches Some((t, st)) ==> exists|t0: VectorTable| {
            &&& #[trigger] table_read(elf_bytes@, symbols@, t0)
            &&& marked(t.entries@, t0.entries@)
            &&& t.base_address == t0.base_address
            &&& t.initial_stack_pointer == t0.initial_stack_pointer
            &&& t.table_size == t0.table_size
            &&& t.mcu_family == t0.mcu_family
            &&& stats_are(st, t)
        },
        r is None ==> forall|t0: VectorTable| !#[trigger] table_read(elf_bytes@, symbols@, t0),
        !crate::vector::parser::file_table_in_bounds(elf_bytes@) ==> r is None,
{
    let parser = crate::vector::parser::VectorTableParser::new();
    if !parser.table_fits(elf_bytes) {
        return None;
    }
    match parser.parse(elf_bytes, symbols) {
        Ok(Some(t)) => {
            let ghost t0 = t;
            let mut table = t;
            let analyzer = VectorAnalyzer::new();
            let stats = analyzer.analyze(&mut table);
            assert(table_read(elf_bytes@, symbols@, t0));
            Some((table, stats))
        },
        _ => None,
    }
}

} // verus!
