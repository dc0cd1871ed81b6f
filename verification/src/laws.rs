//! The library's global laws: what the resolver's intervals partition, how
//! the threaded counters move, and how slices chain.

use vstd::prelude::*;

use crate::mtable::cell_key_spec;
use crate::mtable::entry_le;
use crate::mtable::lemma_cell_key_injective;
use crate::mtable::lemma_entry_le_transitive;
use crate::mtable::same_location;
use crate::mtable::LocationType;
use crate::state::InitializationState;
use crate::step_status::context_in_weight;
use crate::step_status::context_out_weight;
use crate::step_status::cursors_consistent;
use crate::step_status::external_call_weight;
use crate::step_status::host_input_weight;
use crate::step_status::jops_weight;
use crate::step_status::lemma_weight_values;
use crate::step_status::lemma_wsum_concat;
use crate::step_status::lemma_wsum_mono;
use crate::step_status::mops_weight;
use crate::step_status::status_at;
use crate::step_status::total_jops;
use crate::step_status::total_mops;
use crate::step_status::wsum;
use crate::step_status::counters_in_range;
use crate::table_entry::writing_entries_end_at;
use crate::table_entry::writing_entries_wf;
use crate::table_entry::EventTableEntryWithMemoryInfo;
use crate::table_entry::MemoryWritingEntry;

verus! {

/// The writing entry's interval is the one a read of cell `(ltype, offset)`
/// at step `eid` observes: it starts before the read and has not ended at it.
pub open spec fn entry_covers(
    we: MemoryWritingEntry,
    ltype: LocationType,
    offset: u32,
    eid: u32,
) -> bool {
    &&& we.entry.ltype == ltype
    &&& we.entry.offset == offset
    &&& we.entry.eid < eid
    &&& eid <= we.end_eid
}

/// Some interval of the cell written at entry `i` contains the step `eid`.
pub open spec fn cell_covered(t: Seq<MemoryWritingEntry>, i: int, eid: u32) -> bool {
    exists|j: int|
        0 <= j < t.len() && #[trigger] entry_covers(t[j], t[i].entry.ltype, t[i].entry.offset, eid)
}

/// In a well-formed resolved list, entries are pairwise ordered by cell and
/// step.
proof fn lemma_writing_pairwise(t: Seq<MemoryWritingEntry>, i: int, j: int)
    requires
        writing_entries_wf(t),
        0 <= i <= j < t.len(),
    ensures
        i < j ==> entry_le(t[i].entry, t[j].entry),
    decreases j - i,
{
    if i < j {
        lemma_writing_pairwise(t, i, j - 1);
        if i < j - 1 {
            lemma_entry_le_transitive(t[i].entry, t[j - 1].entry, t[j].entry);
        }
    }
}

/// Within one cell, every earlier interval ends no later than a later one
/// starts: intervals of one cell never overlap.
pub proof fn lemma_cell_chain(t: Seq<MemoryWritingEntry>, i: int, j: int)
    requires
        writing_entries_wf(t),
        0 <= i < j < t.len(),
        same_location(t[i].entry, t[j].entry),
    ensures
        t[i].end_eid <= t[j].entry.eid,
    decreases j - i,
{
    if i + 1 == j {
    } else {
        // the entry between shares the cell: cells are grouped by the order
        lemma_writing_pairwise(t, i, j - 1);
        lemma_writing_pairwise(t, i + 1, j);
        assert(entry_le(t[i].entry, t[i + 1].entry));
        assert(cell_key_spec(t[i].entry.ltype, t[i].entry.offset) == cell_key_spec(
            t[j].entry.ltype,
            t[j].entry.offset,
        ));
        lemma_cell_key_injective(
            t[i].entry.ltype,
            t[i].entry.offset,
            t[i + 1].entry.ltype,
            t[i + 1].entry.offset,
        );
        assert(same_location(t[i].entry, t[i + 1].entry));
        lemma_cell_chain(t, i + 1, j);
    }
}

/// A value written and not yet superseded stays observable: below the
/// sentinel, every step after a cell's write falls into some interval of that
/// cell.
#[verifier::rlimit(100)]
#[verifier::spinoff_prover]
pub proof fn lemma_cover_exists(
    t: Seq<MemoryWritingEntry>,
    maximal_eid: u32,
    i: int,
    eid: u32,
)
    requires
        writing_entries_wf(t),
        writing_entries_end_at(t, maximal_eid),
        0 <= i < t.len(),
        t[i].entry.eid < eid,
        eid <= maximal_eid,
    ensures
        cell_covered(t, i, eid),
    decreases t.len() - i,
{
    if eid <= t[i].end_eid {
        assert(entry_covers(t[i], t[i].entry.ltype, t[i].entry.offset, eid));
    } else {
        // the interval ends before the sentinel, so a same-cell successor
        // starts exactly where it ends
        assert(t[i].end_eid != maximal_eid);
        assert(i + 1 < t.len() && same_location(t[i].entry, t[i + 1].entry));
        assert(t[i + 1].entry.eid == t[i].end_eid);
        lemma_cover_exists(t, maximal_eid, i + 1, eid);
        let j = choose|j: int|
            0 <= j < t.len() && #[trigger] entry_covers(
                t[j],
                t[i + 1].entry.ltype,
                t[i + 1].entry.offset,
                eid,
            );
        assert(entry_covers(t[j], t[i].entry.ltype, t[i].entry.offset, eid));
    }
}

/// Interval partition, first part. Intervals of one cell never overlap: an
/// earlier one ends where or before a later one starts; with well-formedness
/// (each interval's end chains to the next same-cell start) the cell's
/// intervals are contiguous.
#[verifier::rlimit(100)]
#[verifier::spinoff_prover]
pub proof fn lemma_intervals_disjoint(t: Seq<MemoryWritingEntry>)
    requires
        writing_entries_wf(t),
    ensures
        forall|i: int, j: int|
            0 <= i < j < t.len() && same_location((#[trigger] t[i]).entry, (#[trigger] t[j]).entry)
                ==> t[i].end_eid <= t[j].entry.eid,
{
    assert forall|i: int, j: int|
        0 <= i < j < t.len() && same_location(
            (#[trigger] t[i]).entry,
            (#[trigger] t[j]).entry,
        ) implies t[i].end_eid <= t[j].entry.eid by {
        lemma_cell_chain(t, i, j);
    }
}

/// Interval partition, second part. Coverage: every step after a cell's
/// write, up to the sentinel, falls into one of the cell's intervals.
#[verifier::rlimit(100)]
#[verifier::spinoff_prover]
pub proof fn lemma_intervals_cover(t: Seq<MemoryWritingEntry>, maximal_eid: u32)
    requires
        writing_entries_wf(t),
        writing_entries_end_at(t, maximal_eid),
    ensures
        forall|i: int, eid: u32|
            0 <= i < t.len() && t[i].entry.eid < eid && eid <= maximal_eid
                ==> #[trigger] cell_covered(t, i, eid),
{
    assert forall|i: int, eid: u32|
        0 <= i < t.len() && t[i].entry.eid < eid && eid <= maximal_eid implies #[trigger] cell_covered(
        t,
        i,
        eid,
    ) by {
        lemma_cover_exists(t, maximal_eid, i, eid);
    }
}

/// Interval partition, third part. Uniqueness: no read step falls into two
/// intervals of one cell.
#[verifier::rlimit(100)]
#[verifier::spinoff_prover]
pub proof fn lemma_cover_unique(t: Seq<MemoryWritingEntry>)
    requires
        writing_entries_wf(t),
    ensures
        forall|i: int, j: int, ltype: LocationType, offset: u32, eid: u32|
            0 <= i < t.len() && 0 <= j < t.len() && #[trigger] entry_covers(t[i], ltype, offset, eid)
                && #[trigger] entry_covers(t[j], ltype, offset, eid) ==> i == j,
{
    assert forall|i: int, j: int, ltype: LocationType, offset: u32, eid: u32|
        0 <= i < t.len() && 0 <= j < t.len() && #[trigger] entry_covers(t[i], ltype, offset, eid)
            && #[trigger] entry_covers(t[j], ltype, offset, eid) implies i == j by {
        if i < j {
            lemma_cell_chain(t, i, j);
        } else if j < i {
            lemma_cell_chain(t, j, i);
        }
    }
}

/// Counter conservation: along one slice, `rest_mops` starts at the slice's
/// total memory-writeback count and falls by exactly each step's count,
/// consuming it all (the last snapshot holds exactly the last step's count,
/// so the value after the slice is exactly zero); each cursor starts at the
/// incoming checkpoint's value and rises by exactly one on the steps whose
/// predicate holds, so it never decreases.
#[verifier::rlimit(100)]
#[verifier::spinoff_prover]
pub proof fn lemma_counter_conservation(
    et: Seq<EventTableEntryWithMemoryInfo>,
    init: InitializationState<u32, u64>,
    continuation: bool,
)
    requires
        counters_in_range(et, init, continuation),
    ensures
        et.len() > 0 ==> status_at(et, init, continuation, 0).rest_mops == total_mops(et),
        forall|i: int|
            0 <= i && i + 1 < et.len() ==> status_at(et, init, continuation, i + 1).rest_mops
                == status_at(et, init, continuation, i).rest_mops - (#[trigger] et[
                i
            ]).eentry.memory_writing_ops,
        et.len() > 0 ==> status_at(et, init, continuation, et.len() - 1).rest_mops
            == et[et.len() - 1].eentry.memory_writing_ops,
        et.len() > 0 ==> status_at(et, init, continuation, 0).host_public_inputs
            == init.host_public_inputs && status_at(et, init, continuation, 0).context_in_index
            == init.context_in_index && status_at(et, init, continuation, 0).context_out_index
            == init.context_out_index && status_at(
            et,
            init,
            continuation,
            0,
        ).external_host_call_call_index == init.external_host_call_call_index,
        forall|i: int|
            0 <= i && i + 1 < et.len() ==> status_at(et, init, continuation, i + 1).host_public_inputs
                == status_at(et, init, continuation, i).host_public_inputs + (if (#[trigger] et[
                i
            ]).eentry.is_host_public_input {
                1int
            } else {
                0int
            }),
        forall|i: int|
            0 <= i && i + 1 < et.len() ==> status_at(et, init, continuation, i + 1).context_in_index
                == status_at(et, init, continuation, i).context_in_index + (if (#[trigger] et[
                i
            ]).eentry.is_context_input_op {
                1int
            } else {
                0int
            }),
        forall|i: int|
            0 <= i && i + 1 < et.len() ==> status_at(et, init, continuation, i + 1).context_out_index
                == status_at(et, init, continuation, i).context_out_index + (if (#[trigger] et[
                i
            ]).eentry.is_context_output_op {
                1int
            } else {
                0int
            }),
        forall|i: int|
            0 <= i && i + 1 < et.len() ==> status_at(
                et,
                init,
                continuation,
                i + 1,
            ).external_host_call_call_index == status_at(
                et,
                init,
                continuation,
                i,
            ).external_host_call_call_index + (if (#[trigger] et[i]).eentry.is_external_host_call {
                1int
            } else {
                0int
            }),
{
    let n = et.len() as int;
    assert forall|i: int| 0 <= i && i + 1 < n implies {
        &&& status_at(et, init, continuation, i + 1).rest_mops == status_at(
            et,
            init,
            continuation,
            i,
        ).rest_mops - (#[trigger] et[i]).eentry.memory_writing_ops
        &&& status_at(et, init, continuation, i + 1).host_public_inputs == status_at(
            et,
            init,
            continuation,
            i,
        ).host_public_inputs + (if et[i].eentry.is_host_public_input {
            1int
        } else {
            0int
        })
        &&& status_at(et, init, continuation, i + 1).context_in_index == status_at(
            et,
            init,
            continuation,
            i,
        ).context_in_index + (if et[i].eentry.is_context_input_op {
            1int
        } else {
            0int
        })
        &&& status_at(et, init, continuation, i + 1).context_out_index == status_at(
            et,
            init,
            continuation,
            i,
        ).context_out_index + (if et[i].eentry.is_context_output_op {
            1int
        } else {
            0int
        })
        &&& status_at(et, init, continuation, i + 1).external_host_call_call_index == status_at(
            et,
            init,
            continuation,
            i,
        ).external_host_call_call_index + (if et[i].eentry.is_external_host_call {
            1int
        } else {
            0int
        })
    } by {
        lemma_weight_values(et[i]);
        lemma_wsum_mono(et, mops_weight(), 0, i);
        lemma_wsum_mono(et, mops_weight(), i + 1, n);
        lemma_wsum_mono(et, host_input_weight(), 0, i);
        lemma_wsum_mono(et, host_input_weight(), i + 1, n);
        lemma_wsum_mono(et, context_in_weight(), 0, i);
        lemma_wsum_mono(et, context_in_weight(), i + 1, n);
        lemma_wsum_mono(et, context_out_weight(), 0, i);
        lemma_wsum_mono(et, context_out_weight(), i + 1, n);
        lemma_wsum_mono(et, external_call_weight(), 0, i);
        lemma_wsum_mono(et, external_call_weight(), i + 1, n);
    }
    if et.len() > 0 {
        lemma_weight_values(et[n - 1]);
        lemma_wsum_mono(et, mops_weight(), 0, n - 1);
        assert(wsum(et, mops_weight(), n) == wsum(et, mops_weight(), n - 1) + mops_weight()(
            et[n - 1],
        ));
    }
}

/// Chaining: when one slice's consistency check passes from `s0` to `s1` and
/// the next slice's from `s1` to `s2`, processing the concatenated trace as a
/// single slice from `s0` passes with the same final checkpoint `s2`, and the
/// slice totals add up.
pub proof fn lemma_chaining(
    a: Seq<EventTableEntryWithMemoryInfo>,
    b: Seq<EventTableEntryWithMemoryInfo>,
    s0: InitializationState<u32, u64>,
    s1: InitializationState<u32, u64>,
    s2: InitializationState<u32, u64>,
)
    requires
        cursors_consistent(a, s0, s1),
        cursors_consistent(b, s1, s2),
    ensures
        cursors_consistent(a + b, s0, s2),
        total_mops(a + b) == total_mops(a) + total_mops(b),
        total_jops(a + b) == total_jops(a) + total_jops(b),
{
    lemma_wsum_concat(a, b, host_input_weight());
    lemma_wsum_concat(a, b, context_in_weight());
    lemma_wsum_concat(a, b, context_out_weight());
    lemma_wsum_concat(a, b, external_call_weight());
    lemma_wsum_concat(a, b, mops_weight());
    lemma_wsum_concat(a, b, jops_weight());
    assert((a + b).len() == a.len() + b.len());
}

} // verus!
