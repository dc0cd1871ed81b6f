use zkwasm_witness::assign::ConfigureTable;
use zkwasm_witness::assign::EventTableChip;
use zkwasm_witness::etable::EventTable;
use zkwasm_witness::etable::EventTableEntry;
use zkwasm_witness::mtable::AccessType;
use zkwasm_witness::mtable::LocationType;
use zkwasm_witness::mtable::MTable;
use zkwasm_witness::mtable::MemoryTableEntry;
use zkwasm_witness::state::InitializationState;
use zkwasm_witness::step_status::generate_status;
use zkwasm_witness::table_entry::EventTableWithMemoryInfo;
use zkwasm_witness::table_entry::MemoryWritingTable;
use zkwasm_witness::WitnessError;

fn access(ltype: LocationType, offset: u32, eid: u32, atype: AccessType, value: u64) -> MemoryTableEntry {
    MemoryTableEntry { eid, offset, ltype, atype, value }
}

fn step(eid: u32, accesses: Vec<MemoryTableEntry>) -> EventTableEntry {
    EventTableEntry {
        eid,
        fid: 1,
        iid: 0,
        sp: 100,
        last_jump_eid: 0,
        allocated_memory_pages: 2,
        memory_writing_ops: 0,
        jops: 0,
        is_host_public_input: false,
        is_context_input_op: false,
        is_context_output_op: false,
        is_external_host_call: false,
        memory_accesses: accesses,
    }
}

fn zero_state() -> InitializationState<u32, u64> {
    InitializationState {
        eid: 0,
        fid: 0,
        iid: 0,
        frame_id: 0,
        sp: 0,
        host_public_inputs: 0,
        context_in_index: 0,
        context_out_index: 0,
        external_host_call_call_index: 0,
        initial_memory_pages: 0,
        maximal_memory_pages: 0,
        jops: 0,
    }
}

#[test]
fn round_trip_two_writes_reads_resolve() {
    // writes to one cell at steps 1 and 5; a read at 3 sees [1, 5), a read at
    // 7 sees [5, sentinel)
    let trace = MTable(vec![
        access(LocationType::Heap, 0, 1, AccessType::Write, 10),
        access(LocationType::Heap, 0, 5, AccessType::Write, 20),
    ]);
    let table = MemoryWritingTable::from(100, trace);
    assert_eq!(table.0.len(), 2);
    assert_eq!((table.0[0].entry.eid, table.0[0].end_eid), (1, 5));
    assert_eq!((table.0[1].entry.eid, table.0[1].end_eid), (5, 100));

    let events = EventTable(vec![
        step(3, vec![access(LocationType::Heap, 0, 3, AccessType::Read, 10)]),
        step(7, vec![access(LocationType::Heap, 0, 7, AccessType::Read, 20)]),
    ]);
    let joined = EventTableWithMemoryInfo::new(&events, &table).unwrap();
    assert_eq!(joined.0.len(), 2);
    let first = &joined.0[0].memory_rw_entires[0];
    assert_eq!((first.start_eid, first.end_eid), (1, 5));
    let second = &joined.0[1].memory_rw_entires[0];
    assert_eq!((second.start_eid, second.end_eid), (5, 100));
}

#[test]
fn vacuous_write_is_dropped_entirely() {
    // two writes to the same cell at the same step: the first has no
    // observable lifetime and is dropped
    let trace = MTable(vec![
        access(LocationType::Global, 7, 2, AccessType::Write, 1),
        access(LocationType::Global, 7, 2, AccessType::Write, 2),
    ]);
    let table = MemoryWritingTable::from(50, trace);
    assert_eq!(table.0.len(), 1);
    assert_eq!(table.0[0].entry.value, 2);
    assert_eq!((table.0[0].entry.eid, table.0[0].end_eid), (2, 50));
}

#[test]
fn finalize_counting_one_per_cell() {
    // cell A written once, B twice, C three times: one finalize write per
    // cell, always the last one
    let trace = MTable(vec![
        access(LocationType::Heap, 0, 1, AccessType::Write, 1),
        access(LocationType::Heap, 1, 2, AccessType::Write, 2),
        access(LocationType::Heap, 1, 4, AccessType::Write, 3),
        access(LocationType::Heap, 2, 3, AccessType::Write, 4),
        access(LocationType::Heap, 2, 5, AccessType::Write, 5),
        access(LocationType::Heap, 2, 6, AccessType::Write, 6),
    ]);
    let table = MemoryWritingTable::from(100, trace);
    let (count, cells) = table.count_rest_memory_finalize_ops();
    assert_eq!(count, 3);
    assert_eq!(cells, vec![
        (LocationType::Heap, 0),
        (LocationType::Heap, 1),
        (LocationType::Heap, 2),
    ]);
}

#[test]
fn finalize_counting_skips_init_entries() {
    // an initialization access is retained as a writing entry but owes no
    // finalize operation
    let trace = MTable(vec![
        access(LocationType::Stack, 3, 1, AccessType::Init, 0),
        access(LocationType::Stack, 4, 2, AccessType::Write, 9),
    ]);
    let table = MemoryWritingTable::from(100, trace);
    assert_eq!(table.0.len(), 2);
    let (count, cells) = table.count_rest_memory_finalize_ops();
    assert_eq!(count, 1);
    assert_eq!(cells, vec![(LocationType::Stack, 4)]);
}

#[test]
fn intervals_are_contiguous_per_cell() {
    let trace = MTable(vec![
        access(LocationType::Heap, 0, 1, AccessType::Init, 0),
        access(LocationType::Heap, 0, 4, AccessType::Write, 1),
        access(LocationType::Heap, 0, 9, AccessType::Write, 2),
        access(LocationType::Heap, 1, 2, AccessType::Write, 3),
    ]);
    let table = MemoryWritingTable::from(1000, trace);
    assert_eq!(table.0.len(), 4);
    // cell (Heap, 0): [1,4) [4,9) [9,1000); cell (Heap, 1): [2,1000)
    assert_eq!((table.0[0].entry.eid, table.0[0].end_eid), (1, 4));
    assert_eq!((table.0[1].entry.eid, table.0[1].end_eid), (4, 9));
    assert_eq!((table.0[2].entry.eid, table.0[2].end_eid), (9, 1000));
    assert_eq!((table.0[3].entry.eid, table.0[3].end_eid), (2, 1000));
}

#[test]
fn lookup_resolves_writes_and_reads() {
    let trace = MTable(vec![
        access(LocationType::Heap, 0, 1, AccessType::Write, 1),
        access(LocationType::Heap, 0, 6, AccessType::Write, 2),
        access(LocationType::Global, 2, 3, AccessType::Write, 3),
    ]);
    let table = MemoryWritingTable::from(40, trace);
    let lookup = table.build_lookup_mapping();
    assert_eq!(lookup.resolve(LocationType::Heap, 0, 6, true), Some((6, 40)));
    assert_eq!(lookup.resolve(LocationType::Heap, 0, 6, false), Some((1, 6)));
    assert_eq!(lookup.resolve(LocationType::Global, 2, 9, false), Some((3, 40)));
    // a read of a never-written cell resolves to nothing
    assert_eq!(lookup.resolve(LocationType::Stack, 5, 9, false), None);
    // a write that is not a writing entry resolves to nothing
    assert_eq!(lookup.resolve(LocationType::Heap, 0, 4, true), None);
}

#[test]
fn read_of_unwritten_cell_is_fatal() {
    let trace = MTable(vec![access(LocationType::Heap, 0, 1, AccessType::Write, 1)]);
    let table = MemoryWritingTable::from(10, trace);
    let events = EventTable(vec![step(
        3,
        vec![access(LocationType::Stack, 9, 3, AccessType::Read, 0)],
    )]);
    let joined = EventTableWithMemoryInfo::new(&events, &table);
    assert!(matches!(joined, Err(WitnessError::UnresolvedMemoryAccess)));
}

#[test]
fn capacity_padding_replicates_terminal_state() {
    // 3 real steps, capacity 8: rows 3..8 are padding holding the terminal
    // snapshot's fields
    let table = MemoryWritingTable::from(100, MTable(vec![]));
    let events = EventTable(vec![step(1, vec![]), step(2, vec![]), step(3, vec![])]);
    let joined = EventTableWithMemoryInfo::new(&events, &table).unwrap();

    let chip = EventTableChip { capability: 8, continuation: false };
    let configure = ConfigureTable { maximal_memory_pages: 10 };
    let pre = zero_state();
    let mut post = zero_state();
    post.eid = 4;
    post.fid = 1;
    post.sp = 100;

    let (cells, rows) = chip.assign(&joined, &configure, &pre, &post, true).unwrap();
    assert_eq!(rows.len(), 9);
    for i in 3..8 {
        let row = &rows[i];
        assert!(row.step_sel);
        assert!(!row.enabled);
        assert_eq!(row.rest_mops, 0);
        assert_eq!(row.jops, 0);
        assert_eq!(row.state, post);
    }
    assert!(!rows[8].step_sel);
    assert_eq!(rows[8].state, post);
    assert_eq!(cells.pre_initialization_state, pre);
    assert_eq!(cells.post_initialization_state, post);
    assert_eq!(cells.rest_mops, 0);
    assert_eq!(cells.rest_jops, Some(0));
}

#[test]
fn counters_thread_through_slice() {
    // two steps each writing back one memory operation; the first also reads
    // a host public input
    let mut s1 = step(1, vec![]);
    s1.memory_writing_ops = 1;
    s1.is_host_public_input = true;
    let mut s2 = step(2, vec![]);
    s2.memory_writing_ops = 1;
    let table = MemoryWritingTable::from(100, MTable(vec![]));
    let events = EventTable(vec![s1, s2]);
    let joined = EventTableWithMemoryInfo::new(&events, &table).unwrap();

    let chip = EventTableChip { capability: 4, continuation: false };
    let configure = ConfigureTable { maximal_memory_pages: 10 };
    let pre = zero_state();
    let mut post = zero_state();
    post.host_public_inputs = 1;

    let (cells, rows) = chip.assign(&joined, &configure, &pre, &post, true).unwrap();
    // rest_mops counts down from the slice total to exactly zero
    assert_eq!(cells.rest_mops, 2);
    assert_eq!(rows[0].rest_mops, 2);
    assert_eq!(rows[1].rest_mops, 1);
    assert_eq!(rows[2].rest_mops, 0);
    // the host-input cursor rises by one exactly at the step that reads one
    assert_eq!(rows[0].state.host_public_inputs, 0);
    assert_eq!(rows[1].state.host_public_inputs, 1);
    assert_eq!(rows[2].state.host_public_inputs, 1);
}

#[test]
fn cursor_mismatch_is_fatal_in_order() {
    let mut s1 = step(1, vec![]);
    s1.is_host_public_input = true;
    let table = MemoryWritingTable::from(100, MTable(vec![]));
    let events = EventTable(vec![s1]);
    let joined = EventTableWithMemoryInfo::new(&events, &table).unwrap();

    let chip = EventTableChip { capability: 2, continuation: false };
    let configure = ConfigureTable { maximal_memory_pages: 10 };
    let pre = zero_state();
    let post = zero_state();  // expects no host input: inconsistent

    let r = chip.assign(&joined, &configure, &pre, &post, true);
    assert!(matches!(r, Err(WitnessError::HostPublicInputsMismatch)));
}

#[test]
fn capacity_overflow_is_fatal() {
    let table = MemoryWritingTable::from(100, MTable(vec![]));
    let events = EventTable(vec![step(1, vec![]), step(2, vec![])]);
    let joined = EventTableWithMemoryInfo::new(&events, &table).unwrap();
    let chip = EventTableChip { capability: 1, continuation: false };
    let configure = ConfigureTable { maximal_memory_pages: 10 };
    let r = chip.assign(&joined, &configure, &zero_state(), &zero_state(), true);
    assert!(matches!(r, Err(WitnessError::CapacityExceeded)));
}

#[test]
fn empty_slice_produces_structural_rows_only() {
    let table = MemoryWritingTable::from(100, MTable(vec![]));
    let events = EventTable(vec![]);
    let joined = EventTableWithMemoryInfo::new(&events, &table).unwrap();
    let chip = EventTableChip { capability: 3, continuation: true };
    let configure = ConfigureTable { maximal_memory_pages: 10 };
    let post = zero_state();
    let (cells, rows) = chip.assign(&joined, &configure, &zero_state(), &post, false).unwrap();
    assert_eq!(rows.len(), 4);
    for i in 0..3 {
        assert!(rows[i].step_sel);
        assert!(!rows[i].enabled);
        assert_eq!(rows[i].state, post);
    }
    assert!(!rows[3].step_sel);
    assert_eq!(cells.rest_mops, 0);
    assert_eq!(cells.rest_jops, None);
}

#[test]
fn chaining_two_slices_matches_one_pass() {
    // slice A: one host input step; slice B: one context input step; A's
    // post-checkpoint equals B's pre-checkpoint
    let mut a1 = step(1, vec![]);
    a1.is_host_public_input = true;
    let mut b1 = step(2, vec![]);
    b1.is_context_input_op = true;

    let table = MemoryWritingTable::from(100, MTable(vec![]));
    let slice_a = EventTableWithMemoryInfo::new(&EventTable(vec![a1.clone()]), &table).unwrap();
    let slice_b = EventTableWithMemoryInfo::new(&EventTable(vec![b1.clone()]), &table).unwrap();
    let whole = EventTableWithMemoryInfo::new(&EventTable(vec![a1, b1]), &table).unwrap();

    let s0 = zero_state();
    let mut s1 = zero_state();
    s1.host_public_inputs = 1;
    let mut s2 = s1;
    s2.context_in_index = 1;

    let ra = generate_status(&slice_a, &s0, &s1, 0, 0, true).unwrap();
    let rb = generate_status(&slice_b, &s1, &s2, 0, 0, true).unwrap();
    let rw = generate_status(&whole, &s0, &s2, 0, 0, true).unwrap();
    // the one-pass terminal snapshot carries the same final checkpoint
    let last = rw.last().unwrap();
    assert_eq!(last.host_public_inputs, s2.host_public_inputs);
    assert_eq!(last.context_in_index, s2.context_in_index);
    assert_eq!(ra.last().unwrap().host_public_inputs, s1.host_public_inputs);
    assert_eq!(rb.last().unwrap().context_in_index, s2.context_in_index);
}

#[test]
fn jops_direction_follows_mode() {
    let mut s1 = step(1, vec![]);
    s1.jops = 2;
    let table = MemoryWritingTable::from(100, MTable(vec![]));
    let joined = EventTableWithMemoryInfo::new(&EventTable(vec![s1]), &table).unwrap();
    let configure = ConfigureTable { maximal_memory_pages: 10 };

    // continuation: jops accumulates from the incoming checkpoint
    let chip = EventTableChip { capability: 2, continuation: true };
    let mut pre = zero_state();
    pre.jops = 5;
    let (_, rows) = chip.assign(&joined, &configure, &pre, &zero_state(), false).unwrap();
    assert_eq!(rows[0].jops, 5);

    // no continuation: jops counts the slice's own total down to zero
    let chip = EventTableChip { capability: 2, continuation: false };
    let (cells, rows) = chip.assign(&joined, &configure, &zero_state(), &zero_state(), true).unwrap();
    assert_eq!(rows[0].jops, 2);
    assert_eq!(cells.rest_jops, Some(2));
}
