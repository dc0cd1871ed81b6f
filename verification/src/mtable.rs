//! Memory access records: the raw trace that the consistency resolver
//! consumes, and the ordering over cells that the resolver assumes.

use vstd::prelude::*;

verus! {

/// Which address space a memory cell lives in.
#[derive(Clone, Copy, Debug, PartialEq, Eq, Structural)]
pub enum LocationType {
    Stack,
    Heap,
    Global,
}

/// How a step touched a memory cell.
#[derive(Clone, Copy, Debug, PartialEq, Eq, Structural)]
pub enum AccessType {
    Read,
    Write,
    Init,
}

/// One memory access of the raw trace. `(ltype, offset)` identifies the cell;
/// `eid` is the step index at which the access happened.
#[derive(Clone, Copy, Debug, PartialEq, Eq, Structural)]
pub struct MemoryTableEntry {
    pub eid: u32,
    pub offset: u32,
    pub ltype: LocationType,
    pub atype: AccessType,
    pub value: u64,
}

/// The full memory access trace of one run, ordered by cell and then by step
/// index (the resolver's explicit precondition).
#[derive(Clone, Debug)]
pub struct MTable(pub Vec<MemoryTableEntry>);

/// A numeric code for each address space, used to order cells totally.
pub open spec fn location_code(ltype: LocationType) -> int {
    match ltype {
        LocationType::Stack => 0,
        LocationType::Heap => 1,
        LocationType::Global => 2,
    }
}

/// One integer per cell: the address space in the high half, the offset in
/// the low half. Injective over `(ltype, offset)`.
pub open spec fn cell_key_spec(ltype: LocationType, offset: u32) -> int {
    location_code(ltype) * 0x1_0000_0000 + offset as int
}

/// Two accesses touch the same cell.
pub open spec fn same_location(a: MemoryTableEntry, b: MemoryTableEntry) -> bool {
    a.ltype == b.ltype && a.offset == b.offset
}

/// The order the resolver expects the trace in: by cell, then by step index.
pub open spec fn entry_le(a: MemoryTableEntry, b: MemoryTableEntry) -> bool {
    ||| cell_key_spec(a.ltype, a.offset) < cell_key_spec(b.ltype, b.offset)
    ||| (cell_key_spec(a.ltype, a.offset) == cell_key_spec(b.ltype, b.offset) && a.eid <= b.eid)
}

/// A trace is sorted when each adjacent pair is ordered.
pub open spec fn entries_sorted(s: Seq<MemoryTableEntry>) -> bool {
    forall|i: int| 0 <= i && i + 1 < s.len() ==> entry_le(#[trigger] s[i], s[i + 1])
}

/// Equal cell keys mean equal cells: the key separates the address space from
/// the offset without collisions.
pub proof fn lemma_cell_key_injective(lt1: LocationType, off1: u32, lt2: LocationType, off2: u32)
    requires
        cell_key_spec(lt1, off1) == cell_key_spec(lt2, off2),
    ensures
        lt1 == lt2,
        off1 == off2,
{
    assert(location_code(lt1) == location_code(lt2) && off1 == off2) by {
        let c1 = location_code(lt1);
        let c2 = location_code(lt2);
        assert(0 <= c1 <= 2 && 0 <= c2 <= 2);
        assert(c1 * 0x1_0000_0000 + off1 as int == c2 * 0x1_0000_0000 + off2 as int);
        assert((off1 as int) < 0x1_0000_0000 && (off2 as int) < 0x1_0000_0000);
        assert(c1 == c2) by (nonlinear_arith)
            requires
                c1 * 0x1_0000_0000 + off1 as int == c2 * 0x1_0000_0000 + off2 as int,
                (off1 as int) < 0x1_0000_0000,
                (off2 as int) < 0x1_0000_0000,
                0 <= c1 <= 2,
                0 <= c2 <= 2,
        ;
    }
}

/// The trace order is transitive.
pub proof fn lemma_entry_le_transitive(a: MemoryTableEntry, b: MemoryTableEntry, c: MemoryTableEntry)
    requires
        entry_le(a, b),
        entry_le(b, c),
    ensures
        entry_le(a, c),
{
}

/// In a sorted trace every earlier entry is ordered before every later one.
pub proof fn lemma_sorted_pairwise(s: Seq<MemoryTableEntry>, i: int, j: int)
    requires
        entries_sorted(s),
        0 <= i <= j < s.len(),
    ensures
        i < j ==> entry_le(s[i], s[j]),
    decreases j - i,
{
    if i < j {
        lemma_sorted_pairwise(s, i, j - 1);
        if i < j - 1 {
            lemma_entry_le_transitive(s[i], s[j - 1], s[j]);
        }
    }
}

/// Computes a cell's order key.
pub fn cell_key_of(ltype: LocationType, offset: u32) -> (r: u64)
    ensures
        r == cell_key_spec(ltype, offset),
{
    let code: u64 = match ltype {
        LocationType::Stack => 0u64,
        LocationType::Heap => 1u64,
        LocationType::Global => 2u64,
    };
    code * 0x1_0000_0000u64 + offset as u64
}

impl MemoryTableEntry {
    /// Whether two accesses touch the same cell.
    pub fn is_same_location(&self, other: &Self) -> (r: bool)
        ensures
            r == same_location(*self, *other),
    {
        let lt_eq = match (self.ltype, other.ltype) {
            (LocationType::Stack, LocationType::Stack) => true,
            (LocationType::Heap, LocationType::Heap) => true,
            (LocationType::Global, LocationType::Global) => true,
            _ => false,
        };
        lt_eq && self.offset == other.offset
    }

    /// The cell's order key.
    pub fn cell_key(&self) -> (r: u64)
        ensures
            r == cell_key_spec(self.ltype, self.offset),
    {
        let code: u64 = match self.ltype {
            LocationType::Stack => 0u64,
            LocationType::Heap => 1u64,
            LocationType::Global => 2u64,
        };
        code * 0x1_0000_0000u64 + self.offset as u64
    }
}

} // verus!
