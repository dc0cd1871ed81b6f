//! Step records of the execution trace, annotated with the per-opcode
//! classification values the upstream interpreter derives from each
//! instruction.

use vstd::prelude::*;

use crate::mtable::MemoryTableEntry;

verus! {

/// One executed step. The identity fields come from the interpreter; the
/// classification fields (`memory_writing_ops`, `jops`, the four predicates)
/// are the opcode's contribution to the bookkeeping counters, a function of
/// the instruction supplied by the per-opcode collaborator; `memory_accesses`
/// are the accesses the opcode's semantics derive from the step, in operand
/// order.
#[derive(Clone, Debug)]
pub struct EventTableEntry {
    pub eid: u32,
    pub fid: u32,
    pub iid: u32,
    pub sp: u32,
    pub last_jump_eid: u32,
    pub allocated_memory_pages: u32,

    pub memory_writing_ops: u32,
    pub jops: u32,
    pub is_host_public_input: bool,
    pub is_context_input_op: bool,
    pub is_context_output_op: bool,
    pub is_external_host_call: bool,

    pub memory_accesses: Vec<MemoryTableEntry>,
}

/// The ordered step trace of one slice; `eid` is strictly increasing along it.
#[derive(Clone, Debug)]
pub struct EventTable(pub Vec<EventTableEntry>);

impl EventTable {
    /// The step records, in execution order.
    pub fn entries(&self) -> (r: &Vec<EventTableEntry>)
        ensures
            r == &self.0,
    {
        &self.0
    }
}

} // verus!
