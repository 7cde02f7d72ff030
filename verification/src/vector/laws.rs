//! What holds of every analysed vector table: each non-stack entry is
//! counted under exactly one status and exactly one kind; and where the table
//! is looked for.
use vstd::prelude::*;

use crate::elf::image::RawSectionV;
use crate::models::{VectorEntry, VectorEntryType};
use crate::vector::parser::{first_text_section, first_vector_section, vector_section};
use crate::vector::analyzer::{
    core_p, count_where, custom_p, default_p, device_p, invalid_p, not_sp, shared_p, unassigned_p,
};

verus! {

pub open spec fn stack_p() -> spec_fn(VectorEntry) -> bool {
    |e: VectorEntry| e.entry_type == VectorEntryType::StackPointer
}

pub open spec fn not_sp_p() -> spec_fn(VectorEntry) -> bool {
    |e: VectorEntry| not_sp(e)
}

/// The status counts add up to the number of vectors other than the stack
/// pointer, and the kind counts plus the stack pointer entries to all entries.
pub proof fn law_counts_partition_entries(es: Seq<VectorEntry>)
    ensures
        count_where(es, custom_p()) + count_where(es, default_p()) + count_where(es, shared_p())
            + count_where(es, invalid_p()) + count_where(es, unassigned_p()) == count_where(
            es,
            not_sp_p(),
        ),
        count_where(es, core_p()) + count_where(es, device_p()) + count_where(es, stack_p())
            == es.len(),
    decreases es.len(),
{
    if es.len() > 0 {
        law_counts_partition_entries(es.drop_last());
    }
}

/// The section names that hold a vector table: `.isr_vector`, `.vectors`,
/// `.vector_table`, `.isr_vectors` and `.intvec`.
pub open spec fn table_section_named(h: RawSectionV) -> bool {
    h.name matches Some(n) && (n == ".isr_vector"@ || n == ".vectors"@ || n == ".vector_table"@
        || n == ".isr_vectors"@ || n == ".intvec"@)
}

proof fn lemma_first_named_from(secs: Seq<RawSectionV>, i: int, k: int)
    requires
        0 <= i <= k < secs.len(),
        table_section_named(secs[k]),
        forall|j: int| i <= j < k ==> !table_section_named(#[trigger] secs[j]),
    ensures
        first_vector_section(secs, i) == Some(k),
    decreases k - i,
{
    if i < k {
        assert(!table_section_named(secs[i]));
        lemma_first_named_from(secs, i + 1, k);
    }
}

proof fn lemma_none_named_from(secs: Seq<RawSectionV>, i: int)
    requires
        0 <= i <= secs.len(),
        forall|j: int| i <= j < secs.len() ==> !table_section_named(#[trigger] secs[j]),
    ensures
        first_vector_section(secs, i) is None,
    decreases secs.len() - i,
{
    if i < secs.len() {
        assert(!table_section_named(secs[i]));
        lemma_none_named_from(secs, i + 1);
    }
}

/// The vector table is read from the first section carrying one of the
/// vector table names, whatever sections come before or after it.
pub proof fn law_table_section_is_first_named(secs: Seq<RawSectionV>, k: int)
    requires
        0 <= k < secs.len(),
        table_section_named(secs[k]),
        forall|j: int| 0 <= j < k ==> !table_section_named(#[trigger] secs[j]),
    ensures
        vector_section(secs) == Some((k, false)),
{
    lemma_first_named_from(secs, 0, k);
}

/// Only when no section carries a vector table name is the table looked for
/// at the start of the first `.text` section.
pub proof fn law_text_only_without_named_section(secs: Seq<RawSectionV>)
    requires
        forall|j: int| 0 <= j < secs.len() ==> !table_section_named(#[trigger] secs[j]),
    ensures
        vector_section(secs) == match first_text_section(secs, 0) {
            Some(i) => Some((i, true)),
            None => None::<(int, bool)>,
        },
{
    lemma_none_named_from(secs, 0);
}

} // verus!
