//! The slice assignment orchestrator: lays one slice out as a fixed-capacity
//! table of rows — the joined steps first, the terminal state replicated over
//! the unused capacity, one closing row for the outgoing checkpoint — and
//! emits the slice's pre- and post-checkpoint vectors for chaining.

use vstd::prelude::*;

use crate::state::InitializationState;
use crate::step_status::counters_in_range;
use crate::step_status::cursors_consistent;
use crate::step_status::generate_status;
use crate::step_status::jops_weight;
use crate::step_status::lemma_weight_values;
use crate::step_status::lemma_wsum_mono;
use crate::step_status::mops_weight;
use crate::step_status::status_at;
use crate::step_status::total_jops;
use crate::step_status::total_mops;
use crate::step_status::wsum;
use crate::step_status::Status;
use crate::table_entry::EventTableEntryWithMemoryInfo;
use crate::table_entry::EventTableWithMemoryInfo;
use crate::WitnessError;

verus! {

/// The static bounds the surrounding configuration supplies verbatim.
#[derive(Clone, Copy, Debug, PartialEq, Eq, Structural)]
pub struct ConfigureTable {
    pub maximal_memory_pages: u32,
}

/// The slice layouter: a fixed capacity of step slots and the continuation
/// mode flag that decides the direction of the `jops` counter.
#[derive(Clone, Copy, Debug, PartialEq, Eq, Structural)]
pub struct EventTableChip {
    pub capability: usize,
    pub continuation: bool,
}

/// One row of the slice's output region: the structural selector, the enable
/// bit of real steps, the two slice counters, and the checkpoint-shaped state
/// fields.
#[derive(Clone, Copy, Debug, PartialEq, Eq, Structural)]
pub struct EventTableRow {
    pub step_sel: bool,
    pub enabled: bool,
    pub rest_mops: u32,
    pub jops: u64,
    pub state: InitializationState<u32, u64>,
}

/// The values the surrounding proof linkage consumes: the first step's
/// remaining-operation counters and the slice's two checkpoint vectors.
#[derive(Clone, Copy, Debug)]
pub struct EventTablePermutationCells {
    pub rest_mops: u32,
    /// The remaining control-return operations at the first step; carried
    /// only outside continuation mode, where the counter counts down.
    pub rest_jops: Option<u64>,
    pub pre_initialization_state: InitializationState<u32, u64>,
    pub post_initialization_state: InitializationState<u32, u64>,
}

/// The all-zero checkpoint vector.
pub open spec fn zero_state() -> InitializationState<u32, u64> {
    InitializationState {
        eid: 0u32,
        fid: 0u32,
        iid: 0u32,
        frame_id: 0u32,
        sp: 0u32,
        host_public_inputs: 0u32,
        context_in_index: 0u32,
        context_out_index: 0u32,
        external_host_call_call_index: 0u32,
        initial_memory_pages: 0u32,
        maximal_memory_pages: 0u32,
        jops: 0u64,
    }
}

/// A structural row as `init` leaves it: selector set, nothing else.
pub open spec fn blank_row(sel: bool) -> EventTableRow {
    EventTableRow { step_sel: sel, enabled: false, rest_mops: 0, jops: 0, state: zero_state() }
}

/// The checkpoint-shaped state fields of one real step's row: the step's own
/// identity (`last_jump_eid` standing as `frame_id`, `allocated_memory_pages`
/// as `initial_memory_pages`), the cursors before the step, and the
/// configured page bound.
pub open spec fn entry_state(
    et: Seq<EventTableEntryWithMemoryInfo>,
    init: InitializationState<u32, u64>,
    continuation: bool,
    i: int,
    maximal_memory_pages: u32,
) -> InitializationState<u32, u64> {
    let e = et[i].eentry;
    let st = status_at(et, init, continuation, i);
    InitializationState {
        eid: e.eid,
        fid: e.fid,
        iid: e.iid,
        frame_id: e.last_jump_eid,
        sp: e.sp,
        host_public_inputs: st.host_public_inputs,
        context_in_index: st.context_in_index,
        context_out_index: st.context_out_index,
        external_host_call_call_index: st.external_host_call_call_index,
        initial_memory_pages: e.allocated_memory_pages,
        maximal_memory_pages: maximal_memory_pages,
        jops: st.jops,
    }
}

/// The complete row of one real step.
pub open spec fn entry_row(
    et: Seq<EventTableEntryWithMemoryInfo>,
    init: InitializationState<u32, u64>,
    continuation: bool,
    i: int,
    maximal_memory_pages: u32,
) -> EventTableRow {
    let st = status_at(et, init, continuation, i);
    EventTableRow {
        step_sel: true,
        enabled: true,
        rest_mops: st.rest_mops,
        jops: st.jops,
        state: entry_state(et, init, continuation, i, maximal_memory_pages),
    }
}

/// A padding row: structurally active but disabled, replicating the outgoing
/// checkpoint's fields.
pub open spec fn padding_row(post: InitializationState<u32, u64>) -> EventTableRow {
    EventTableRow { step_sel: true, enabled: false, rest_mops: 0, jops: 0, state: post }
}

/// The closing row holding the outgoing checkpoint, with the counters pinned
/// to zero.
pub open spec fn final_row(post: InitializationState<u32, u64>) -> EventTableRow {
    EventTableRow { step_sel: false, enabled: false, rest_mops: 0, jops: 0, state: post }
}

/// The full layout of one assigned slice: the real steps' rows, padding up to
/// capacity, and the closing checkpoint row.
pub open spec fn slice_rows_ok(
    rows: Seq<EventTableRow>,
    et: Seq<EventTableEntryWithMemoryInfo>,
    init: InitializationState<u32, u64>,
    post: InitializationState<u32, u64>,
    continuation: bool,
    capability: int,
    maximal_memory_pages: u32,
) -> bool {
    &&& rows.len() == capability + 1
    &&& forall|i: int|
        0 <= i < et.len() ==> #[trigger] rows[i] == entry_row(
            et,
            init,
            continuation,
            i,
            maximal_memory_pages,
        )
    &&& forall|i: int| et.len() <= i < capability ==> #[trigger] rows[i] == padding_row(post)
    &&& rows[capability] == final_row(post)
}

/// Builds the output row of one real step from its joined record and its
/// snapshot: the snapshot's counters, the step's own checkpoint-shaped
/// identity, and the configured page bound. Each step's row depends on its
/// own inputs alone, so rows may be built in any order, or in parallel, once
/// the snapshot list exists.
pub fn build_entry_row(
    entry: &EventTableEntryWithMemoryInfo,
    status: &Status,
    maximal_memory_pages: u32,
) -> (r: EventTableRow)
    ensures
        r == (EventTableRow {
            step_sel: true,
            enabled: true,
            rest_mops: status.rest_mops,
            jops: status.jops,
            state: InitializationState {
                eid: entry.eentry.eid,
                fid: entry.eentry.fid,
                iid: entry.eentry.iid,
                frame_id: entry.eentry.last_jump_eid,
                sp: entry.eentry.sp,
                host_public_inputs: status.host_public_inputs,
                context_in_index: status.context_in_index,
                context_out_index: status.context_out_index,
                external_host_call_call_index: status.external_host_call_call_index,
                initial_memory_pages: entry.eentry.allocated_memory_pages,
                maximal_memory_pages: maximal_memory_pages,
                jops: status.jops,
            },
        }),
{
    EventTableRow {
        step_sel: true,
        enabled: true,
        rest_mops: status.rest_mops,
        jops: status.jops,
        state: InitializationState {
            eid: entry.eentry.eid,
            fid: entry.eentry.fid,
            iid: entry.eentry.iid,
            frame_id: entry.eentry.last_jump_eid,
            sp: entry.eentry.sp,
            host_public_inputs: status.host_public_inputs,
            context_in_index: status.context_in_index,
            context_out_index: status.context_out_index,
            external_host_call_call_index: status.external_host_call_call_index,
            initial_memory_pages: entry.eentry.allocated_memory_pages,
            maximal_memory_pages: maximal_memory_pages,
            jops: status.jops,
        },
    }
}

impl EventTableChip {
    /// Marks every capacity slot as structurally active and pins the closing
    /// row's counters to zero: the fixed shape every slice starts from.
    pub fn init(&self) -> (r: Vec<EventTableRow>)
        ensures
            r@.len() == self.capability + 1,
            forall|i: int| 0 <= i < self.capability ==> #[trigger] r@[i] == blank_row(true),
            r@[self.capability as int] == blank_row(false),
    {
        let mut rows: Vec<EventTableRow> = Vec::new();
        let mut i: usize = 0;
        while i < self.capability
            invariant
                i <= self.capability,
                rows@.len() == i,
                forall|p: int| 0 <= p < i ==> #[trigger] rows@[p] == blank_row(true),
            decreases self.capability - i,
        {
            rows.push(
                EventTableRow {
                    step_sel: true,
                    enabled: false,
                    rest_mops: 0,
                    jops: 0,
                    state: InitializationState::default(),
                },
            );
            i += 1;
        }
        rows.push(
            EventTableRow {
                step_sel: false,
                enabled: false,
                rest_mops: 0,
                jops: 0,
                state: InitializationState::default(),
            },
        );
        rows
    }

    /// Places one checkpoint-shaped state into the row at `at`, leaving the
    /// row's other columns as they are.
    pub fn assign_step_state(
        &self,
        rows: &mut Vec<EventTableRow>,
        at: usize,
        state: &InitializationState<u32, u64>,
    )
        requires
            at < old(rows)@.len(),
        ensures
            final(rows)@.len() == old(rows)@.len(),
            final(rows)@[at as int] == (EventTableRow {
                state: *state,
                ..old(rows)@[at as int]
            }),
            forall|i: int|
                0 <= i < final(rows)@.len() && i != at ==> final(rows)@[i] == old(rows)@[i],
    {
        let mut row = rows[at];
        row.state = *state;
        rows.set(at, row);
    }

    /// Clears the first slot's counter columns; their real values are placed
    /// by the entries pass, and stay zero on an empty slice.
    pub fn assign_rest_ops_first_step(&self, rows: &mut Vec<EventTableRow>) -> (r: (u32, u64))
        requires
            old(rows)@.len() > 0,
        ensures
            final(rows)@.len() == old(rows)@.len(),
            final(rows)@[0] == (EventTableRow { rest_mops: 0u32, jops: 0u64, ..old(rows)@[0] }),
            forall|i: int| 0 < i < final(rows)@.len() ==> final(rows)@[i] == old(rows)@[i],
            r == (0u32, 0u64),
    {
        let mut row = rows[0];
        row.rest_mops = 0;
        row.jops = 0;
        rows.set(0, row);
        (0, 0)
    }

    /// Folds the per-opcode classification over the slice: the total
    /// memory-writeback count that seeds `rest_mops`, and the `jops` seed —
    /// the incoming checkpoint's accumulator under continuation, the slice's
    /// total control-return count otherwise.
    pub fn compute_rest_mops_and_jops(
        &self,
        event_table: &EventTableWithMemoryInfo,
        initialization_state: &InitializationState<u32, u64>,
    ) -> (r: (u32, u64))
        requires
            total_mops(event_table.0@) <= u32::MAX,
            total_jops(event_table.0@) <= u64::MAX,
        ensures
            r.0 == total_mops(event_table.0@),
            r.1 == if self.continuation {
                initialization_state.jops as int
            } else {
                total_jops(event_table.0@)
            },
    {
        let ghost et = event_table.0@;
        let n = event_table.0.len();
        let mut rest_mops: u32 = 0;
        let mut rest_jops: u64 = 0;
        let mut i: usize = 0;
        while i < n
            invariant
                et == event_table.0@,
                n == et.len(),
                total_mops(et) <= u32::MAX,
                total_jops(et) <= u64::MAX,
                i <= n,
                rest_mops == wsum(et, mops_weight(), i as int),
                rest_jops == wsum(et, jops_weight(), i as int),
            decreases n - i,
        {
            let entry = &event_table.0[i];
            proof {
                lemma_weight_values(et[i as int]);
                lemma_wsum_mono(et, mops_weight(), i as int + 1, n as int);
                lemma_wsum_mono(et, jops_weight(), i as int + 1, n as int);
            }
            rest_mops += entry.eentry.memory_writing_ops;
            rest_jops += entry.eentry.jops as u64;
            i += 1;
        }
        if self.continuation {
            (rest_mops, initialization_state.jops)
        } else {
            (rest_mops, rest_jops)
        }
    }

    /// Places every real step's row: the snapshot counters threaded by the
    /// sequential pass, the resolved step identity, and the enable bit. Each
    /// step writes only its own slot, so the placement order does not matter
    /// once the snapshot list exists. An empty slice places nothing. Fails,
    /// placing nothing, exactly when the sequential pass finds a terminal
    /// cursor that differs from the expected post-state.
    pub fn assign_entries(
        &self,
        rows: &mut Vec<EventTableRow>,
        event_table: &EventTableWithMemoryInfo,
        configure_table: &ConfigureTable,
        initialization_state: &InitializationState<u32, u64>,
        post_initialization_state: &InitializationState<u32, u64>,
        rest_mops: u32,
        jops: u64,
    ) -> (r: Result<(), WitnessError>)
        requires
            event_table.0@.len() < old(rows)@.len(),
            counters_in_range(event_table.0@, *initialization_state, self.continuation),
            rest_mops == total_mops(event_table.0@),
            jops == if self.continuation {
                initialization_state.jops as int
            } else {
                total_jops(event_table.0@)
            },
        ensures
            r is Ok <==> (event_table.0@.len() == 0 || cursors_consistent(
                event_table.0@,
                *initialization_state,
                *post_initialization_state,
            )),
            r is Err ==> final(rows)@ == old(rows)@,
            event_table.0@.len() == 0 ==> final(rows)@ == old(rows)@,
            r is Ok ==> {
                &&& final(rows)@.len() == old(rows)@.len()
                &&& forall|i: int|
                    0 <= i < event_table.0@.len() ==> #[trigger] final(rows)@[i] == entry_row(
                        event_table.0@,
                        *initialization_state,
                        self.continuation,
                        i,
                        configure_table.maximal_memory_pages,
                    )
                &&& forall|i: int|
                    event_table.0@.len() <= i < final(rows)@.len() ==> #[trigger] final(rows)@[i]
                        == old(rows)@[i]
            },
            r matches Err(e) ==> event_table.0@.len() > 0 && (e
                == WitnessError::HostPublicInputsMismatch || e
                == WitnessError::ContextInIndexMismatch || e
                == WitnessError::ContextOutIndexMismatch || e
                == WitnessError::ExternalHostCallIndexMismatch),
    {
        let ghost et = event_table.0@;
        let n = event_table.0.len();
        if n == 0 {
            return Ok(());
        }
        let status = match generate_status(
            event_table,
            initialization_state,
            post_initialization_state,
            rest_mops,
            jops,
            self.continuation,
        ) {
            Ok(status) => status,
            Err(e) => {
                return Err(e);
            },
        };
        let mut i: usize = 0;
        while i < n
            invariant
                et == event_table.0@,
                n == et.len(),
                n < old(rows)@.len(),
                rows@.len() == old(rows)@.len(),
                status@.len() == n + 1,
                forall|p: int|
                    0 <= p < n ==> status@[p] == status_at(
                        et,
                        *initialization_state,
                        self.continuation,
                        p,
                    ),
                i <= n,
                forall|p: int|
                    0 <= p < i ==> #[trigger] rows@[p] == entry_row(
                        et,
                        *initialization_state,
                        self.continuation,
                        p,
                        configure_table.maximal_memory_pages,
                    ),
                forall|p: int| i <= p < rows@.len() ==> #[trigger] rows@[p] == old(rows)@[p],
            decreases n - i,
        {
            let st = status[i];
            let entry = &event_table.0[i];
            let row = build_entry_row(entry, &st, configure_table.maximal_memory_pages);
            proof {
                assert(row == entry_row(
                    et,
                    *initialization_state,
                    self.continuation,
                    i as int,
                    configure_table.maximal_memory_pages,
                ));
            }
            rows.set(i, row);
            i += 1;
        }
        Ok(())
    }

    /// Replicates the terminal state over the unused capacity and places the
    /// outgoing checkpoint on the closing row, returning that checkpoint.
    pub fn assign_padding_and_post_initialization_state(
        &self,
        rows: &mut Vec<EventTableRow>,
        start: usize,
        state: &InitializationState<u32, u64>,
    ) -> (r: InitializationState<u32, u64>)
        requires
            start <= old(rows)@.len(),
        ensures
            final(rows)@.len() == old(rows)@.len(),
            forall|i: int|
                start <= i < final(rows)@.len() ==> #[trigger] final(rows)@[i] == (EventTableRow {
                    state: *state,
                    ..old(rows)@[i]
                }),
            forall|i: int| 0 <= i < start ==> #[trigger] final(rows)@[i] == old(rows)@[i],
            r == *state,
    {
        let n = rows.len();
        let mut i: usize = start;
        while i < n
            invariant
                n == rows@.len(),
                rows@.len() == old(rows)@.len(),
                start <= i <= n,
                forall|p: int|
                    start <= p < i ==> #[trigger] rows@[p] == (EventTableRow {
                        state: *state,
                        ..old(rows)@[p]
                    }),
                forall|p: int| 0 <= p < start ==> #[trigger] rows@[p] == old(rows)@[p],
                forall|p: int| i <= p < n ==> #[trigger] rows@[p] == old(rows)@[p],
            decreases n - i,
        {
            let mut row = rows[i];
            row.state = *state;
            rows.set(i, row);
            i += 1;
        }
        *state
    }

    /// Assigns one whole slice: checks the capacity, lays the fixed shape
    /// out, places the incoming checkpoint, threads the sequential snapshots
    /// through every real step, pads the rest with the terminal state, and
    /// closes with the outgoing checkpoint. Returns the linkage values and
    /// the finished rows. Fails on a slice over capacity, and on any terminal
    /// cursor that differs from the expected post-state.
    pub fn assign(
        &self,
        event_table: &EventTableWithMemoryInfo,
        configure_table: &ConfigureTable,
        initialization_state: &InitializationState<u32, u64>,
        post_initialization_state: &InitializationState<u32, u64>,
        _is_last_slice: bool,
    ) -> (r: Result<(EventTablePermutationCells, Vec<EventTableRow>), WitnessError>)
        requires
            counters_in_range(event_table.0@, *initialization_state, self.continuation),
        ensures
            (r == Err::<(EventTablePermutationCells, Vec<EventTableRow>), WitnessError>(
                WitnessError::CapacityExceeded,
            )) <==> event_table.0@.len() > self.capability,
            r is Ok <==> (event_table.0@.len() <= self.capability && (event_table.0@.len() == 0
                || cursors_consistent(
                event_table.0@,
                *initialization_state,
                *post_initialization_state,
            ))),
            r matches Ok(p) ==> {
                &&& slice_rows_ok(
                    p.1@,
                    event_table.0@,
                    *initialization_state,
                    *post_initialization_state,
                    self.continuation,
                    self.capability as int,
                    configure_table.maximal_memory_pages,
                )
                &&& p.0.rest_mops == total_mops(event_table.0@)
                &&& p.0.rest_jops == if self.continuation {
                    Option::<u64>::None
                } else {
                    Some((total_jops(event_table.0@)) as u64)
                }
                &&& p.0.pre_initialization_state == *initialization_state
                &&& p.0.post_initialization_state == *post_initialization_state
            },
    {
        let n = event_table.0.len();
        if n > self.capability {
            return Err(WitnessError::CapacityExceeded);
        }

        let mut rows = self.init();
        self.assign_step_state(&mut rows, 0, initialization_state);
        let (_rest_mops_cell, _rest_jops_cell) = self.assign_rest_ops_first_step(&mut rows);

        let (rest_mops, jops) = self.compute_rest_mops_and_jops(event_table, initialization_state);

        match self.assign_entries(
            &mut rows,
            event_table,
            configure_table,
            initialization_state,
            post_initialization_state,
            rest_mops,
            jops,
        ) {
            Ok(()) => {},
            Err(e) => {
                return Err(e);
            },
        }

        let post_state = self.assign_padding_and_post_initialization_state(
            &mut rows,
            n,
            post_initialization_state,
        );

        proof {
            assert(slice_rows_ok(
                rows@,
                event_table.0@,
                *initialization_state,
                *post_initialization_state,
                self.continuation,
                self.capability as int,
                configure_table.maximal_memory_pages,
            ));
        }

        Ok(
            (
                EventTablePermutationCells {
                    rest_mops,
                    rest_jops: if self.continuation {
                        None
                    } else {
                        Some(jops)
                    },
                    pre_initialization_state: *initialization_state,
                    post_initialization_state: post_state,
                },
                rows,
            ),
        )
    }
}

} // verus!
