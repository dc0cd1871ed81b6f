//! Witness-generation core for a sliced WebAssembly execution trace.
//!
//! From a raw execution trace (step records and the memory accesses they
//! performed) this library resolves, for every memory cell, the validity
//! interval of each written value, joins every step with the intervals its
//! accesses fall into, threads the per-step bookkeeping counters through one
//! slice, and lays the result out as a bounded-capacity table of rows framed
//! by the slice's incoming and outgoing checkpoint vectors.

use vstd::prelude::*;

pub mod assign;
pub mod etable;
pub mod laws;
pub mod mtable;
pub mod state;
pub mod step_status;
pub mod table_entry;

verus! {

/// A fatal inconsistency found while generating a slice's witness.
///
/// Every variant reports a defect in the inputs (an upstream trace or an
/// expected post-state that does not match), never a transient condition.
#[derive(Clone, Copy, Debug, PartialEq, Eq, Structural)]
pub enum WitnessError {
    /// A memory access refers to a cell interval that does not exist:
    /// a read with no covering write, or a write absent from the resolved table.
    UnresolvedMemoryAccess,
    /// A slice holds more real steps than its fixed capacity.
    CapacityExceeded,
    /// The host-public-input cursor computed over the slice does not reach the
    /// value the expected post-state supplies.
    HostPublicInputsMismatch,
    /// The context-input cursor does not reach the expected post-state value.
    ContextInIndexMismatch,
    /// The context-output cursor does not reach the expected post-state value.
    ContextOutIndexMismatch,
    /// The external-host-call cursor does not reach the expected post-state value.
    ExternalHostCallIndexMismatch,
}

} // verus!
