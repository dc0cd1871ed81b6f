//! The sequential status generator: one forward pass over the joined trace,
//! threading the slice's bookkeeping counters and checking the terminal
//! values against the expected post-state.

use vstd::prelude::*;

use crate::state::InitializationState;
use crate::table_entry::EventTableEntryWithMemoryInfo;
use crate::table_entry::EventTableWithMemoryInfo;
use crate::WitnessError;

verus! {

/// The per-step snapshot consumed by the slice assignment: the step's
/// identity fields and the running counter values before the step applies.
#[derive(Clone, Copy, Debug, PartialEq, Eq, Structural)]
pub struct Status {
    pub eid: u32,
    pub fid: u32,
    pub iid: u32,
    pub sp: u32,
    pub last_jump_eid: u32,
    pub allocated_memory_pages: u32,

    pub rest_mops: u32,
    pub jops: u64,

    pub host_public_inputs: u32,
    pub context_in_index: u32,
    pub context_out_index: u32,
    pub external_host_call_call_index: u32,
}

/// The sum of a per-step weight over the first `n` joined steps.
pub open spec fn wsum(
    s: Seq<EventTableEntryWithMemoryInfo>,
    w: spec_fn(EventTableEntryWithMemoryInfo) -> int,
    n: int,
) -> int
    decreases n,
{
    if n <= 0 {
        0
    } else {
        wsum(s, w, n - 1) + w(s[n - 1])
    }
}

/// The step's count of memory-writeback operations.
pub open spec fn mops_weight() -> spec_fn(EventTableEntryWithMemoryInfo) -> int {
    |e: EventTableEntryWithMemoryInfo| e.eentry.memory_writing_ops as int
}

/// The step's count of control-flow-return operations.
pub open spec fn jops_weight() -> spec_fn(EventTableEntryWithMemoryInfo) -> int {
    |e: EventTableEntryWithMemoryInfo| e.eentry.jops as int
}

/// One when the step reads a host public input.
pub open spec fn host_input_weight() -> spec_fn(EventTableEntryWithMemoryInfo) -> int {
    |e: EventTableEntryWithMemoryInfo|
        if e.eentry.is_host_public_input {
            1int
        } else {
            0int
        }
}

/// One when the step is a context input operation.
pub open spec fn context_in_weight() -> spec_fn(EventTableEntryWithMemoryInfo) -> int {
    |e: EventTableEntryWithMemoryInfo|
        if e.eentry.is_context_input_op {
            1int
        } else {
            0int
        }
}

/// One when the step is a context output operation.
pub open spec fn context_out_weight() -> spec_fn(EventTableEntryWithMemoryInfo) -> int {
    |e: EventTableEntryWithMemoryInfo|
        if e.eentry.is_context_output_op {
            1int
        } else {
            0int
        }
}

/// One when the step is an external host call.
pub open spec fn external_call_weight() -> spec_fn(EventTableEntryWithMemoryInfo) -> int {
    |e: EventTableEntryWithMemoryInfo|
        if e.eentry.is_external_host_call {
            1int
        } else {
            0int
        }
}

/// The memory-writeback operations owed by the whole slice.
pub open spec fn total_mops(s: Seq<EventTableEntryWithMemoryInfo>) -> int {
    wsum(s, mops_weight(), s.len() as int)
}

/// The control-flow-return operations of the whole slice.
pub open spec fn total_jops(s: Seq<EventTableEntryWithMemoryInfo>) -> int {
    wsum(s, jops_weight(), s.len() as int)
}

/// The six per-step weights are non-negative, and the four predicate weights
/// are at most one.
pub proof fn lemma_weight_values(e: EventTableEntryWithMemoryInfo)
    ensures
        mops_weight()(e) == e.eentry.memory_writing_ops as int,
        jops_weight()(e) == e.eentry.jops as int,
        host_input_weight()(e) == if e.eentry.is_host_public_input {
            1int
        } else {
            0int
        },
        context_in_weight()(e) == if e.eentry.is_context_input_op {
            1int
        } else {
            0int
        },
        context_out_weight()(e) == if e.eentry.is_context_output_op {
            1int
        } else {
            0int
        },
        external_call_weight()(e) == if e.eentry.is_external_host_call {
            1int
        } else {
            0int
        },
{
}

/// A weighted prefix sum with non-negative weights never decreases.
pub proof fn lemma_wsum_mono(
    s: Seq<EventTableEntryWithMemoryInfo>,
    w: spec_fn(EventTableEntryWithMemoryInfo) -> int,
    n1: int,
    n2: int,
)
    requires
        forall|e: EventTableEntryWithMemoryInfo| #[trigger] w(e) >= 0,
        n1 <= n2,
    ensures
        wsum(s, w, n1) <= wsum(s, w, n2),
    decreases n2 - n1,
{
    if n1 < n2 {
        lemma_wsum_mono(s, w, n1, n2 - 1);
    }
}

/// Two sequences equal on a prefix have equal weighted sums over it.
pub proof fn lemma_wsum_agree(
    s1: Seq<EventTableEntryWithMemoryInfo>,
    s2: Seq<EventTableEntryWithMemoryInfo>,
    w: spec_fn(EventTableEntryWithMemoryInfo) -> int,
    n: int,
)
    requires
        forall|p: int| 0 <= p < n ==> s1[p] == s2[p],
    ensures
        wsum(s1, w, n) == wsum(s2, w, n),
    decreases n,
{
    if n > 0 {
        lemma_wsum_agree(s1, s2, w, n - 1);
    }
}

/// A weighted sum over a concatenation splits into the two parts' sums.
pub proof fn lemma_wsum_concat(
    a: Seq<EventTableEntryWithMemoryInfo>,
    b: Seq<EventTableEntryWithMemoryInfo>,
    w: spec_fn(EventTableEntryWithMemoryInfo) -> int,
)
    ensures
        wsum(a + b, w, a.len() + b.len() as int) == wsum(a, w, a.len() as int) + wsum(
            b,
            w,
            b.len() as int,
        ),
    decreases b.len(),
{
    if b.len() == 0 {
        assert(a + b =~= a);
        lemma_wsum_agree(a + b, a, w, a.len() as int);
    } else {
        let b0 = b.drop_last();
        lemma_wsum_concat(a, b0, w);
        assert(forall|p: int| 0 <= p < a.len() + b.len() - 1 ==> (a + b)[p] == (a + b0)[p]);
        lemma_wsum_agree(a + b, a + b0, w, a.len() + b.len() - 1 as int);
        assert((a + b)[a.len() + b.len() - 1] == b.last());
        assert(wsum(a + b, w, a.len() + b.len() as int) == wsum(a + b, w, a.len() + b.len() - 1) + w(
            b.last(),
        ));
        assert(wsum(b, w, b.len() as int) == wsum(b, w, b.len() - 1) + w(b.last()));
        lemma_wsum_agree(b, b0, w, b.len() - 1);
    }
}

/// The snapshot the generator emits for step `i`: the step's identity fields
/// and every counter's value before the step applies.
pub open spec fn status_at(
    et: Seq<EventTableEntryWithMemoryInfo>,
    init: InitializationState<u32, u64>,
    continuation: bool,
    i: int,
) -> Status {
    Status {
        eid: et[i].eentry.eid,
        fid: et[i].eentry.fid,
        iid: et[i].eentry.iid,
        sp: et[i].eentry.sp,
        last_jump_eid: et[i].eentry.last_jump_eid,
        allocated_memory_pages: et[i].eentry.allocated_memory_pages,
        rest_mops: (total_mops(et) - wsum(et, mops_weight(), i)) as u32,
        jops: if continuation {
            (init.jops + wsum(et, jops_weight(), i)) as u64
        } else {
            (total_jops(et) - wsum(et, jops_weight(), i)) as u64
        },
        host_public_inputs: (init.host_public_inputs + wsum(et, host_input_weight(), i)) as u32,
        context_in_index: (init.context_in_index + wsum(et, context_in_weight(), i)) as u32,
        context_out_index: (init.context_out_index + wsum(et, context_out_weight(), i)) as u32,
        external_host_call_call_index: (init.external_host_call_call_index + wsum(
            et,
            external_call_weight(),
            i,
        )) as u32,
    }
}

/// The terminal snapshot appended after the last step: the expected
/// post-state's identity fields and the counters' final values.
pub open spec fn terminal_status(
    et: Seq<EventTableEntryWithMemoryInfo>,
    init: InitializationState<u32, u64>,
    post: InitializationState<u32, u64>,
    continuation: bool,
) -> Status {
    Status {
        eid: post.eid,
        fid: post.fid,
        iid: post.iid,
        sp: post.sp,
        last_jump_eid: post.frame_id,
        allocated_memory_pages: post.initial_memory_pages,
        rest_mops: 0,
        jops: if continuation {
            (init.jops + total_jops(et)) as u64
        } else {
            0
        },
        host_public_inputs: post.host_public_inputs,
        context_in_index: post.context_in_index,
        context_out_index: post.context_out_index,
        external_host_call_call_index: post.external_host_call_call_index,
    }
}

/// The four cursor counters computed over the slice reach exactly the
/// expected post-state's values.
pub open spec fn cursors_consistent(
    et: Seq<EventTableEntryWithMemoryInfo>,
    init: InitializationState<u32, u64>,
    post: InitializationState<u32, u64>,
) -> bool {
    &&& post.host_public_inputs == init.host_public_inputs + wsum(
        et,
        host_input_weight(),
        et.len() as int,
    )
    &&& post.context_in_index == init.context_in_index + wsum(
        et,
        context_in_weight(),
        et.len() as int,
    )
    &&& post.context_out_index == init.context_out_index + wsum(
        et,
        context_out_weight(),
        et.len() as int,
    )
    &&& post.external_host_call_call_index == init.external_host_call_call_index + wsum(
        et,
        external_call_weight(),
        et.len() as int,
    )
}

/// The arithmetic room the generator needs: every counter stays within its
/// machine word over the whole slice.
pub open spec fn counters_in_range(
    et: Seq<EventTableEntryWithMemoryInfo>,
    init: InitializationState<u32, u64>,
    continuation: bool,
) -> bool {
    &&& total_mops(et) <= u32::MAX
    &&& total_jops(et) <= u64::MAX
    &&& continuation ==> init.jops + total_jops(et) <= u64::MAX
    &&& init.host_public_inputs + wsum(et, host_input_weight(), et.len() as int) <= u32::MAX
    &&& init.context_in_index + wsum(et, context_in_weight(), et.len() as int) <= u32::MAX
    &&& init.context_out_index + wsum(et, context_out_weight(), et.len() as int) <= u32::MAX
    &&& init.external_host_call_call_index + wsum(et, external_call_weight(), et.len() as int)
        <= u32::MAX
}

/// Walks the joined trace once, emitting for every step the counters' values
/// before the step applies, then one terminal snapshot built from the
/// expected post-state. Each cursor rises by one exactly on the steps whose
/// predicate holds; `rest_mops` falls by each step's memory-write count to
/// exactly zero; `jops` accumulates under continuation and counts down to
/// zero otherwise. Fails, without emitting, exactly on the first cursor whose
/// terminal value differs from the expected post-state.
#[verifier::rlimit(100)]
#[verifier::spinoff_prover]
pub fn generate_status(
    event_table: &EventTableWithMemoryInfo,
    initialization_state: &InitializationState<u32, u64>,
    post_initialization_state: &InitializationState<u32, u64>,
    rest_mops: u32,
    jops: u64,
    continuation: bool,
) -> (r: Result<Vec<Status>, WitnessError>)
    requires
        counters_in_range(event_table.0@, *initialization_state, continuation),
        rest_mops == total_mops(event_table.0@),
        jops == if continuation {
            initialization_state.jops as int
        } else {
            total_jops(event_table.0@)
        },
    ensures
        r is Ok <==> cursors_consistent(
            event_table.0@,
            *initialization_state,
            *post_initialization_state,
        ),
        r matches Ok(v) ==> {
            &&& v@.len() == event_table.0@.len() + 1
            &&& forall|i: int|
                0 <= i < event_table.0@.len() ==> v@[i] == status_at(
                    event_table.0@,
                    *initialization_state,
                    continuation,
                    i,
                )
            &&& v@.last() == terminal_status(
                event_table.0@,
                *initialization_state,
                *post_initialization_state,
                continuation,
            )
        },
        (r == Err::<Vec<Status>, WitnessError>(WitnessError::HostPublicInputsMismatch)) <==> (
        post_initialization_state.host_public_inputs != initialization_state.host_public_inputs
            + wsum(event_table.0@, host_input_weight(), event_table.0@.len() as int)),
        (r == Err::<Vec<Status>, WitnessError>(WitnessError::ContextInIndexMismatch)) <==> (
        post_initialization_state.host_public_inputs == initialization_state.host_public_inputs
            + wsum(event_table.0@, host_input_weight(), event_table.0@.len() as int)
            && post_initialization_state.context_in_index != initialization_state.context_in_index
            + wsum(event_table.0@, context_in_weight(), event_table.0@.len() as int)),
        (r == Err::<Vec<Status>, WitnessError>(WitnessError::ContextOutIndexMismatch)) <==> (
        post_initialization_state.host_public_inputs == initialization_state.host_public_inputs
            + wsum(event_table.0@, host_input_weight(), event_table.0@.len() as int)
            && post_initialization_state.context_in_index == initialization_state.context_in_index
            + wsum(event_table.0@, context_in_weight(), event_table.0@.len() as int)
            && post_initialization_state.context_out_index
            != initialization_state.context_out_index + wsum(
            event_table.0@,
            context_out_weight(),
            event_table.0@.len() as int,
        )),
        (r == Err::<Vec<Status>, WitnessError>(WitnessError::ExternalHostCallIndexMismatch)) <==> (
        post_initialization_state.host_public_inputs == initialization_state.host_public_inputs
            + wsum(event_table.0@, host_input_weight(), event_table.0@.len() as int)
            && post_initialization_state.context_in_index == initialization_state.context_in_index
            + wsum(event_table.0@, context_in_weight(), event_table.0@.len() as int)
            && post_initialization_state.context_out_index
            == initialization_state.context_out_index + wsum(
            event_table.0@,
            context_out_weight(),
            event_table.0@.len() as int,
        ) && post_initialization_state.external_host_call_call_index
            != initialization_state.external_host_call_call_index + wsum(
            event_table.0@,
            external_call_weight(),
            event_table.0@.len() as int,
        )),
{
    let ghost et = event_table.0@;
    let n = event_table.0.len();

    let mut host_public_inputs = initialization_state.host_public_inputs;
    let mut context_in_index = initialization_state.context_in_index;
    let mut context_out_index = initialization_state.context_out_index;
    let mut external_host_call_call_index = initialization_state.external_host_call_call_index;

    let mut rest_mops = rest_mops;
    let mut jops = jops;

    let mut status: Vec<Status> = Vec::new();
    let mut i: usize = 0;
    while i < n
        invariant
            et == event_table.0@,
            n == et.len(),
            counters_in_range(et, *initialization_state, continuation),
            i <= n,
            status@.len() == i,
            forall|p: int|
                0 <= p < i ==> status@[p] == status_at(
                    et,
                    *initialization_state,
                    continuation,
                    p,
                ),
            host_public_inputs == initialization_state.host_public_inputs + wsum(
                et,
                host_input_weight(),
                i as int,
            ),
            context_in_index == initialization_state.context_in_index + wsum(
                et,
                context_in_weight(),
                i as int,
            ),
            context_out_index == initialization_state.context_out_index + wsum(
                et,
                context_out_weight(),
                i as int,
            ),
            external_host_call_call_index == initialization_state.external_host_call_call_index
                + wsum(et, external_call_weight(), i as int),
            rest_mops == total_mops(et) - wsum(et, mops_weight(), i as int),
            jops == if continuation {
                initialization_state.jops + wsum(et, jops_weight(), i as int)
            } else {
                total_jops(et) - wsum(et, jops_weight(), i as int)
            },
        decreases n - i,
    {
        let entry = &event_table.0[i];
        proof {
            lemma_weight_values(et[i as int]);
            lemma_wsum_mono(et, mops_weight(), i as int + 1, n as int);
            lemma_wsum_mono(et, mops_weight(), 0, i as int);
            lemma_wsum_mono(et, jops_weight(), i as int + 1, n as int);
            lemma_wsum_mono(et, jops_weight(), 0, i as int);
            lemma_wsum_mono(et, host_input_weight(), i as int + 1, n as int);
            lemma_wsum_mono(et, host_input_weight(), 0, i as int);
            lemma_wsum_mono(et, context_in_weight(), i as int + 1, n as int);
            lemma_wsum_mono(et, context_in_weight(), 0, i as int);
            lemma_wsum_mono(et, context_out_weight(), i as int + 1, n as int);
            lemma_wsum_mono(et, context_out_weight(), 0, i as int);
            lemma_wsum_mono(et, external_call_weight(), i as int + 1, n as int);
            lemma_wsum_mono(et, external_call_weight(), 0, i as int);
        }
        let snapshot = Status {
            eid: entry.eentry.eid,
            fid: entry.eentry.fid,
            iid: entry.eentry.iid,
            sp: entry.eentry.sp,
            last_jump_eid: entry.eentry.last_jump_eid,
            allocated_memory_pages: entry.eentry.allocated_memory_pages,

            rest_mops,
            jops,

            host_public_inputs,
            context_in_index,
            context_out_index,
            external_host_call_call_index,
        };
        proof {
            assert(snapshot == status_at(et, *initialization_state, continuation, i as int));
        }
        status.push(snapshot);

        if entry.eentry.is_host_public_input {
            host_public_inputs += 1;
        }
        if entry.eentry.is_context_input_op {
            context_in_index += 1;
        }
        if entry.eentry.is_context_output_op {
            context_out_index += 1;
        }
        if entry.eentry.is_external_host_call {
            external_host_call_call_index += 1;
        }

        rest_mops -= entry.eentry.memory_writing_ops;
        if continuation {
            jops += entry.eentry.jops as u64;
        } else {
            jops -= entry.eentry.jops as u64;
        }

        i += 1;
    }

    if post_initialization_state.host_public_inputs != host_public_inputs {
        return Err(WitnessError::HostPublicInputsMismatch);
    }
    if post_initialization_state.context_in_index != context_in_index {
        return Err(WitnessError::ContextInIndexMismatch);
    }
    if post_initialization_state.context_out_index != context_out_index {
        return Err(WitnessError::ContextOutIndexMismatch);
    }
    if post_initialization_state.external_host_call_call_index != external_host_call_call_index {
        return Err(WitnessError::ExternalHostCallIndexMismatch);
    }

    let terminate_status = Status {
        eid: post_initialization_state.eid,
        fid: post_initialization_state.fid,
        iid: post_initialization_state.iid,
        sp: post_initialization_state.sp,
        last_jump_eid: post_initialization_state.frame_id,
        allocated_memory_pages: post_initialization_state.initial_memory_pages,

        host_public_inputs: post_initialization_state.host_public_inputs,
        context_in_index: post_initialization_state.context_in_index,
        context_out_index: post_initialization_state.context_out_index,
        external_host_call_call_index: post_initialization_state.external_host_call_call_index,

        rest_mops,
        jops,
    };

    status.push(terminate_status);

    Ok(status)
}

} // verus!
