//! Memory consistency resolution: from the raw access trace, the ordered
//! history of writes to each cell with the validity interval of each written
//! value, the per-cell lookup index over those intervals, and the join of the
//! execution trace with the interval each of its accesses falls into.

use vstd::prelude::*;

use crate::etable::EventTable;
use crate::etable::EventTableEntry;
use crate::mtable::cell_key_spec;
use crate::mtable::entries_sorted;
use crate::mtable::entry_le;
use crate::mtable::lemma_cell_key_injective;
use crate::mtable::lemma_entry_le_transitive;
use crate::mtable::AccessType;
use crate::mtable::LocationType;
use crate::mtable::MTable;
use crate::mtable::MemoryTableEntry;
use crate::mtable::same_location;
use crate::WitnessError;

verus! {

/// A non-read access annotated with its validity interval: the written value
/// is the cell's value from `entry.eid` (inclusive) up to `end_eid`
/// (exclusive).
#[derive(Clone, Copy, Debug, PartialEq, Eq, Structural)]
pub struct MemoryWritingEntry {
    /// Position among the retained non-read accesses before vacuous entries
    /// were dropped.
    pub index: usize,
    pub entry: MemoryTableEntry,
    pub end_eid: u32,
}

impl MemoryWritingEntry {
    /// Whether two writing entries address the same cell.
    pub fn is_same_memory_address(&self, other: &Self) -> (r: bool)
        ensures
            r == same_location(self.entry, other.entry),
    {
        self.entry.is_same_location(&other.entry)
    }
}

/// The resolved writing-entry list of one run: every non-read access with its
/// validity interval, vacuous entries dropped, in cell-then-step order.
#[derive(Clone, Debug)]
pub struct MemoryWritingTable(pub Vec<MemoryWritingEntry>);

/// The predicate that keeps the non-read accesses of the trace.
pub open spec fn writing_pred() -> spec_fn(MemoryTableEntry) -> bool {
    |e: MemoryTableEntry| e.atype != AccessType::Read
}

/// The non-read accesses of the trace, in order.
pub open spec fn writes_of(s: Seq<MemoryTableEntry>) -> Seq<MemoryTableEntry> {
    s.filter(writing_pred())
}

/// The provisional validity bound of the `i`th retained access: the step of
/// the next write to the same cell, or the sentinel if none follows.
pub open spec fn provisional_end(w: Seq<MemoryTableEntry>, i: int, maximal_eid: u32) -> u32 {
    if i + 1 < w.len() && same_location(w[i], w[i + 1]) {
        w[i + 1].eid
    } else {
        maximal_eid
    }
}

/// The retained accesses with their provisional intervals, before vacuous
/// entries are dropped.
pub open spec fn provisional_entries(w: Seq<MemoryTableEntry>, maximal_eid: u32) -> Seq<
    MemoryWritingEntry,
> {
    Seq::new(
        w.len(),
        |i: int|
            MemoryWritingEntry {
                index: i as usize,
                entry: w[i],
                end_eid: provisional_end(w, i, maximal_eid),
            },
    )
}

/// A writing entry superseded at the very step that produced it has no
/// observable lifetime.
pub open spec fn is_vacuous(we: MemoryWritingEntry) -> bool {
    we.entry.eid == we.end_eid
}

/// The predicate that keeps the non-vacuous writing entries.
pub open spec fn nonvacuous_pred() -> spec_fn(MemoryWritingEntry) -> bool {
    |we: MemoryWritingEntry| !is_vacuous(we)
}

/// The fully resolved writing-entry list of a trace: non-read accesses,
/// each with its validity interval, vacuous entries dropped.
pub open spec fn resolved_entries(s: Seq<MemoryTableEntry>, maximal_eid: u32) -> Seq<
    MemoryWritingEntry,
> {
    provisional_entries(writes_of(s), maximal_eid).filter(nonvacuous_pred())
}

/// Structural well-formedness of a resolved list: every interval is
/// non-empty, entries are in cell-then-step order, and within one cell each
/// interval ends exactly where the next begins.
pub open spec fn writing_entries_wf(t: Seq<MemoryWritingEntry>) -> bool {
    &&& forall|i: int| 0 <= i < t.len() ==> (#[trigger] t[i]).entry.eid < t[i].end_eid
    &&& forall|i: int|
        0 <= i && i + 1 < t.len() ==> entry_le((#[trigger] t[i]).entry, t[i + 1].entry)
    &&& forall|i: int|
        0 <= i && i + 1 < t.len() && same_location((#[trigger] t[i]).entry, t[i + 1].entry)
            ==> t[i].end_eid == t[i + 1].entry.eid
}

/// The last write of each cell keeps the sentinel bound, and no interval
/// reaches past it.
pub open spec fn writing_entries_end_at(t: Seq<MemoryWritingEntry>, maximal_eid: u32) -> bool {
    &&& forall|i: int|
        0 <= i < t.len() && (i + 1 == t.len() || !same_location(
            (#[trigger] t[i]).entry,
            t[i + 1].entry,
        )) ==> t[i].end_eid == maximal_eid
    &&& forall|i: int| 0 <= i < t.len() ==> (#[trigger] t[i]).end_eid <= maximal_eid
}

/// Appending one element to a sequence filters to the old result, with the
/// element appended when the predicate keeps it.
pub proof fn lemma_filter_push<A>(s: Seq<A>, pred: spec_fn(A) -> bool, x: A)
    ensures
        s.push(x).filter(pred) == if pred(x) {
            s.filter(pred).push(x)
        } else {
            s.filter(pred)
        },
{
    reveal(Seq::filter);
    assert(s.push(x).drop_last() =~= s);
    assert(s.push(x).last() == x);
}

/// Appending an entry that extends the last cell run (or opens a new one)
/// preserves the structural well-formedness of a resolved list.
#[verifier::rlimit(100)]
#[verifier::spinoff_prover]
proof fn lemma_wf_push(c0: Seq<MemoryWritingEntry>, x: MemoryWritingEntry, m: u32)
    requires
        writing_entries_wf(c0),
        forall|p: int| 0 <= p < c0.len() ==> (#[trigger] c0[p]).end_eid <= m,
        forall|p: int|
            0 <= p && p + 1 < c0.len() && !same_location(
                (#[trigger] c0[p]).entry,
                c0[p + 1].entry,
            ) ==> c0[p].end_eid == m,
        c0.len() > 0 ==> entry_le(c0.last().entry, x.entry),
        c0.len() > 0 && same_location(c0.last().entry, x.entry) ==> c0.last().end_eid
            == x.entry.eid,
        c0.len() > 0 && !same_location(c0.last().entry, x.entry) ==> c0.last().end_eid == m,
        x.entry.eid < x.end_eid,
        x.end_eid <= m,
    ensures
        writing_entries_wf(c0.push(x)),
        forall|p: int| 0 <= p < c0.push(x).len() ==> (#[trigger] c0.push(x)[p]).end_eid <= m,
        forall|p: int|
            0 <= p && p + 1 < c0.push(x).len() && !same_location(
                (#[trigger] c0.push(x)[p]).entry,
                c0.push(x)[p + 1].entry,
            ) ==> c0.push(x)[p].end_eid == m,
{
    let c = c0.push(x);
    assert forall|p: int| 0 <= p < c.len() implies (#[trigger] c[p]).entry.eid
        < c[p].end_eid by {
        if p < c0.len() {
            assert(c[p] == c0[p]);
        } else {
            assert(c[p] == x);
        }
    }
    assert forall|p: int| 0 <= p && p + 1 < c.len() implies entry_le(
        (#[trigger] c[p]).entry,
        c[p + 1].entry,
    ) by {
        assert(c[p] == if p < c0.len() { c0[p] } else { x });
        assert(c[p + 1] == if p + 1 < c0.len() { c0[p + 1] } else { x });
        if p + 1 == c0.len() {
            assert(c0[p] == c0.last());
        }
    }
    assert forall|p: int|
        0 <= p && p + 1 < c.len() && same_location(
            (#[trigger] c[p]).entry,
            c[p + 1].entry,
        ) implies c[p].end_eid == c[p + 1].entry.eid by {
        assert(c[p] == if p < c0.len() { c0[p] } else { x });
        assert(c[p + 1] == if p + 1 < c0.len() { c0[p + 1] } else { x });
        if p + 1 == c0.len() {
            assert(c0[p] == c0.last());
        }
    }
    assert forall|p: int| 0 <= p < c.len() implies (#[trigger] c[p]).end_eid <= m by {
        assert(c[p] == if p < c0.len() { c0[p] } else { x });
    }
    assert forall|p: int|
        0 <= p && p + 1 < c.len() && !same_location(
            (#[trigger] c[p]).entry,
            c[p + 1].entry,
        ) implies c[p].end_eid == m by {
        assert(c[p] == if p < c0.len() { c0[p] } else { x });
        assert(c[p + 1] == if p + 1 < c0.len() { c0[p + 1] } else { x });
        if p + 1 == c0.len() {
            assert(c0[p] == c0.last());
        }
    }
}

/// A prefix of the resolved list is well formed, keeps within the sentinel,
/// and relates to the next unprocessed retained access as the resolver's
/// forward pass expects.
#[verifier::rlimit(100)]
#[verifier::spinoff_prover]
proof fn lemma_resolved_prefix_wf(w: Seq<MemoryTableEntry>, m: u32, j: int)
    requires
        forall|p: int| 0 <= p && p + 1 < w.len() ==> entry_le(#[trigger] w[p], w[p + 1]),
        forall|p: int| 0 <= p < w.len() ==> (#[trigger] w[p]).eid < m,
        0 <= j <= w.len(),
    ensures
        ({
            let c = provisional_entries(w, m).take(j).filter(nonvacuous_pred());
            &&& writing_entries_wf(c)
            &&& forall|p: int| 0 <= p < c.len() ==> (#[trigger] c[p]).end_eid <= m
            &&& forall|p: int|
                0 <= p && p + 1 < c.len() && !same_location(
                    (#[trigger] c[p]).entry,
                    c[p + 1].entry,
                ) ==> c[p].end_eid == m
            &&& (c.len() > 0 && j < w.len() && same_location(c.last().entry, w[j]) ==> c.last().end_eid
                == w[j].eid)
            &&& (c.len() > 0 && (j >= w.len() || !same_location(c.last().entry, w[j]))
                ==> c.last().end_eid == m)
            &&& (c.len() > 0 && j < w.len() ==> entry_le(c.last().entry, w[j]))
        }),
    decreases j,
{
    let b = provisional_entries(w, m);
    if j == 0 {
        reveal(Seq::filter);
        assert(b.take(0) =~= Seq::<MemoryWritingEntry>::empty());
        assert(b.take(0).filter(nonvacuous_pred()).len() == 0);
    } else {
        lemma_resolved_prefix_wf(w, m, j - 1);
        let c0 = b.take(j - 1).filter(nonvacuous_pred());
        let x = b[j - 1];
        b.lemma_take_succ_push(j - 1);
        lemma_filter_push(b.take(j - 1), nonvacuous_pred(), x);
        assert(x.entry == w[j - 1] && x.end_eid == provisional_end(w, j - 1, m));
        let c = b.take(j).filter(nonvacuous_pred());
        if !is_vacuous(x) {
            assert(c == c0.push(x));
            // the new last element's own bound
            assert(x.entry.eid < x.end_eid && x.end_eid <= m) by {
                if j < w.len() && same_location(w[j - 1], w[j]) {
                    assert(x.end_eid == w[j].eid);
                    assert(entry_le(w[j - 1], w[j]));
                } else {
                    assert(x.end_eid == m);
                }
            }
            lemma_wf_push(c0, x, m);
            assert(c.last() == x);
            if j < w.len() {
                assert(entry_le(x.entry, w[j]));
                if same_location(x.entry, w[j]) {
                    assert(x.end_eid == w[j].eid);
                } else {
                    assert(x.end_eid == m);
                }
            } else {
                assert(x.end_eid == m);
            }
        } else {
            assert(c == c0);
            // a vacuous entry always has a same-cell successor at the same step
            assert(x.entry.eid == x.end_eid);
            assert(x.end_eid != m);
            assert(j < w.len() && same_location(w[j - 1], w[j]) && w[j].eid == w[j - 1].eid);
            if c0.len() > 0 {
                if same_location(c0.last().entry, w[j]) {
                    lemma_cell_key_injective(
                        c0.last().entry.ltype,
                        c0.last().entry.offset,
                        w[j].ltype,
                        w[j].offset,
                    );
                    assert(same_location(c0.last().entry, w[j - 1]));
                }
                lemma_entry_le_transitive(c0.last().entry, w[j - 1], w[j]);
            }
        }
    }
}

impl MemoryWritingTable {
    /// The list is well formed as `from` leaves it.
    pub open spec fn wf(self) -> bool {
        writing_entries_wf(self.0@)
    }

    /// All intervals stay within the sentinel, and each cell's last one
    /// reaches it.
    pub open spec fn ends_at(self, maximal_eid: u32) -> bool {
        writing_entries_end_at(self.0@, maximal_eid)
    }

    /// Resolves the memory consistency of one trace: keeps the non-read
    /// accesses, bounds each one's validity by the next write to the same
    /// cell (or by `maximal_eid`, the mode's sentinel: the unbounded maximum
    /// under continuation, a fixed trace-local bound otherwise), and drops
    /// entries with no observable lifetime.
    ///
    /// The trace must come grouped by cell and ordered by step within each
    /// cell, and every access must happen before the sentinel.
    #[verifier::rlimit(100)]
    pub fn from(maximal_eid: u32, value: MTable) -> (r: Self)
        requires
            entries_sorted(value.0@),
            forall|i: int| 0 <= i < value.0@.len() ==> (#[trigger] value.0@[i]).eid < maximal_eid,
        ensures
            r.0@ == resolved_entries(value.0@, maximal_eid),
            r.wf(),
            r.ends_at(maximal_eid),
    {
        let entries = value.0;
        let n = entries.len();

        let mut w: Vec<MemoryTableEntry> = Vec::new();
        let mut i: usize = 0;
        while i < n
            invariant
                n == entries@.len(),
                i <= n,
                entries_sorted(entries@),
                forall|p: int| 0 <= p < entries@.len() ==> (#[trigger] entries@[p]).eid < maximal_eid,
                w@ == writes_of(entries@.take(i as int)),
                forall|p: int| 0 <= p && p + 1 < w@.len() ==> entry_le(#[trigger] w@[p], w@[p + 1]),
                forall|p: int| 0 <= p < w@.len() ==> (#[trigger] w@[p]).eid < maximal_eid,
                w@.len() > 0 && i > 0 ==> entry_le(w@.last(), entries@[i - 1]),
            decreases n - i,
        {
            let e = entries[i];
            proof {
                entries@.lemma_take_succ_push(i as int);
                lemma_filter_push(entries@.take(i as int), writing_pred(), e);
                if i > 0 && w@.len() > 0 {
                    lemma_entry_le_transitive(w@.last(), entries@[i as int - 1], e);
                }
            }
            if !matches!(e.atype, AccessType::Read) {
                w.push(e);
            }
            i += 1;
        }
        proof {
            entries@.lemma_take_len();
            assert(w@ == writes_of(entries@));
        }

        let m = w.len();
        let ghost pe = provisional_entries(w@, maximal_eid);
        let mut result: Vec<MemoryWritingEntry> = Vec::new();
        let mut j: usize = 0;
        while j < m
            invariant
                m == w@.len(),
                j <= m,
                pe == provisional_entries(w@, maximal_eid),
                result@ == pe.take(j as int).filter(nonvacuous_pred()),
            decreases m - j,
        {
            let end: u32 = if j + 1 < m {
                if w[j].is_same_location(&w[j + 1]) {
                    w[j + 1].eid
                } else {
                    maximal_eid
                }
            } else {
                maximal_eid
            };
            proof {
                assert(end == provisional_end(w@, j as int, maximal_eid));
                assert(pe[j as int] == MemoryWritingEntry {
                    index: j,
                    entry: w@[j as int],
                    end_eid: end,
                });
                pe.lemma_take_succ_push(j as int);
                lemma_filter_push(pe.take(j as int), nonvacuous_pred(), pe[j as int]);
            }
            if w[j].eid != end {
                let we = MemoryWritingEntry { index: j, entry: w[j], end_eid: end };
                result.push(we);
            }
            j += 1;
        }
        proof {
            pe.lemma_take_len();
            assert(pe.take(m as int) == pe);
            assert(result@ == resolved_entries(entries@, maximal_eid));
            lemma_resolved_prefix_wf(w@, maximal_eid, m as int);
            assert(pe.take(m as int).filter(nonvacuous_pred()) == result@);
        }

        MemoryWritingTable(result)
    }
}

/// The `i`th entry of a resolved list is the last write to its cell and owes
/// a finalization operation.
pub open spec fn is_rest_finalize(t: Seq<MemoryWritingEntry>, i: int) -> bool {
    &&& t[i].entry.atype == AccessType::Write
    &&& (i + 1 == t.len() || !same_location(t[i].entry, t[i + 1].entry))
}

/// How many of the first `n` entries owe a finalization operation.
pub open spec fn finalize_count(t: Seq<MemoryWritingEntry>, n: int) -> int
    decreases n,
{
    if n <= 0 {
        0
    } else {
        finalize_count(t, n - 1) + if is_rest_finalize(t, n - 1) {
            1int
        } else {
            0int
        }
    }
}

/// The cells of the finalization-owing entries among the first `n`, in order.
pub open spec fn finalize_cells(t: Seq<MemoryWritingEntry>, n: int) -> Seq<(LocationType, u32)>
    decreases n,
{
    if n <= 0 {
        Seq::empty()
    } else {
        finalize_cells(t, n - 1) + if is_rest_finalize(t, n - 1) {
            seq![(t[n - 1].entry.ltype, t[n - 1].entry.offset)]
        } else {
            Seq::empty()
        }
    }
}

/// At most one entry per prefix position counts.
proof fn lemma_finalize_count_le(t: Seq<MemoryWritingEntry>, n: int)
    requires
        0 <= n,
    ensures
        finalize_count(t, n) <= n,
        0 <= finalize_count(t, n),
    decreases n,
{
    if n > 0 {
        lemma_finalize_count_le(t, n - 1);
    }
}

impl MemoryWritingTable {
    /// Counts the writes that no later write to the same cell supersedes:
    /// each owes one memory-finalization operation before the slice's memory
    /// consistency check is satisfied. Returns the count and the cells, in
    /// list order.
    pub fn count_rest_memory_finalize_ops(&self) -> (r: (u32, Vec<(LocationType, u32)>))
        requires
            self.0@.len() <= u32::MAX,
        ensures
            r.0 == finalize_count(self.0@, self.0@.len() as int),
            r.1@ == finalize_cells(self.0@, self.0@.len() as int),
    {
        let n = self.0.len();
        let mut count: u32 = 0;
        let mut set: Vec<(LocationType, u32)> = Vec::new();

        let mut i: usize = 0;
        while i < n
            invariant
                n == self.0@.len(),
                n <= u32::MAX,
                i <= n,
                count == finalize_count(self.0@, i as int),
                set@ == finalize_cells(self.0@, i as int),
            decreases n - i,
        {
            proof {
                lemma_finalize_count_le(self.0@, i as int);
            }
            let entry = &self.0[i];
            let last_of_cell = if i + 1 < n {
                !entry.is_same_memory_address(&self.0[i + 1])
            } else {
                true
            };
            if matches!(entry.entry.atype, AccessType::Write) && last_of_cell {
                set.push((entry.entry.ltype, entry.entry.offset));
                count += 1;
                proof {
                    assert(set@ =~= finalize_cells(self.0@, i as int + 1));
                }
            } else {
                proof {
                    assert(set@ =~= finalize_cells(self.0@, i as int + 1));
                }
            }
            i += 1;
        }

        (count, set)
    }
}


/// One written cell with its chronologically ordered validity intervals.
#[derive(Clone, Debug)]
pub struct LocationIntervals {
    pub ltype: LocationType,
    pub offset: u32,
    pub intervals: Vec<(u32, u32)>,
}

/// The memory lookup index: an ordered mapping from cell identity to the
/// cell's sorted `(start_eid, end_eid)` intervals, answering which interval
/// is active at, or starts at, a given step in logarithmic time.
#[derive(Clone, Debug)]
pub struct MemoryWritingLookup(pub Vec<LocationIntervals>);

/// One cell's interval list is non-empty on each interval and chains each end
/// to the next start.
pub open spec fn intervals_wf(iv: Seq<(u32, u32)>) -> bool {
    &&& forall|j: int| 0 <= j < iv.len() ==> (#[trigger] iv[j]).0 < iv[j].1
    &&& forall|j: int| 0 <= j && j + 1 < iv.len() ==> (#[trigger] iv[j]).1 == iv[j + 1].0
}

/// Interval ends never reach past later interval starts in one cell's chain.
pub proof fn lemma_intervals_ordered(iv: Seq<(u32, u32)>, j1: int, j2: int)
    requires
        intervals_wf(iv),
        0 <= j1 <= j2 < iv.len(),
    ensures
        j1 < j2 ==> iv[j1].1 <= iv[j2].0,
        iv[j1].0 <= iv[j2].0,
        iv[j1].1 <= iv[j2].1,
    decreases j2 - j1,
{
    if j1 < j2 {
        lemma_intervals_ordered(iv, j1, j2 - 1);
    }
}

/// The groups of a lookup index, ordered strictly by cell.
pub open spec fn lookup_groups_wf(mp: Seq<LocationIntervals>) -> bool {
    &&& forall|g: int, h: int|
        0 <= g < h < mp.len() ==> cell_key_spec((#[trigger] mp[g]).ltype, mp[g].offset)
            < cell_key_spec((#[trigger] mp[h]).ltype, mp[h].offset)
    &&& forall|g: int| 0 <= g < mp.len() ==> (#[trigger] mp[g]).intervals@.len() > 0
    &&& forall|g: int| 0 <= g < mp.len() ==> intervals_wf((#[trigger] mp[g]).intervals@)
}

/// The first `n` entries of a resolved list hold an interval `[s, e)` for the
/// cell `(ltype, offset)`.
pub open spec fn table_has_interval_upto(
    t: Seq<MemoryWritingEntry>,
    n: int,
    ltype: LocationType,
    offset: u32,
    s: u32,
    e: u32,
) -> bool {
    exists|i: int|
        0 <= i < n && i < t.len() && (#[trigger] t[i]).entry.ltype == ltype && t[i].entry.offset
            == offset && t[i].entry.eid == s && t[i].end_eid == e
}

/// A resolved list holds an interval `[s, e)` for the cell `(ltype, offset)`.
pub open spec fn table_has_interval(
    t: Seq<MemoryWritingEntry>,
    ltype: LocationType,
    offset: u32,
    s: u32,
    e: u32,
) -> bool {
    table_has_interval_upto(t, t.len() as int, ltype, offset, s, e)
}

/// A group list holds an interval `[s, e)` for the cell `(ltype, offset)`.
pub open spec fn lookup_contains(
    mp: Seq<LocationIntervals>,
    ltype: LocationType,
    offset: u32,
    s: u32,
    e: u32,
) -> bool {
    exists|g: int, j: int|
        0 <= g < mp.len() && 0 <= j < (#[trigger] mp[g]).intervals@.len() && mp[g].ltype == ltype
            && mp[g].offset == offset && (#[trigger] mp[g].intervals@[j]) == (s, e)
}

impl MemoryWritingLookup {
    /// Structural well-formedness of the index.
    pub open spec fn wf(self) -> bool {
        lookup_groups_wf(self.0@)
    }

    /// The index holds an interval `[s, e)` for the cell `(ltype, offset)`.
    pub open spec fn contains_interval(
        self,
        ltype: LocationType,
        offset: u32,
        s: u32,
        e: u32,
    ) -> bool {
        lookup_contains(self.0@, ltype, offset, s, e)
    }

    /// Locates the group of the cell with the given order key, if any.
    fn find_group(&self, key: u64) -> (r: Option<usize>)
        requires
            self.wf(),
        ensures
            r matches Some(g) ==> g < self.0@.len() && cell_key_spec(
                self.0@[g as int].ltype,
                self.0@[g as int].offset,
            ) == key,
            r is None ==> forall|g: int|
                0 <= g < self.0@.len() ==> cell_key_spec(
                    (#[trigger] self.0@[g]).ltype,
                    self.0@[g].offset,
                ) != key,
    {
        let mut lo: usize = 0;
        let mut hi: usize = self.0.len();
        while lo < hi
            invariant
                lo <= hi <= self.0@.len(),
                self.wf(),
                forall|g: int|
                    0 <= g < self.0@.len() && cell_key_spec(
                        (#[trigger] self.0@[g]).ltype,
                        self.0@[g].offset,
                    ) == key ==> lo <= g < hi,
            decreases hi - lo,
        {
            let mid = lo + (hi - lo) / 2;
            let group = &self.0[mid];
            let mid_key = crate::mtable::cell_key_of(group.ltype, group.offset);
            if mid_key == key {
                return Some(mid);
            } else if mid_key < key {
                lo = mid + 1;
            } else {
                hi = mid;
            }
        }
        None
    }
}

/// Locates the interval that starts exactly at `eid` in one cell's chain.
fn find_write_interval(iv: &Vec<(u32, u32)>, eid: u32) -> (r: Option<usize>)
    requires
        intervals_wf(iv@),
    ensures
        r matches Some(j) ==> j < iv@.len() && iv@[j as int].0 == eid,
        r is None ==> forall|j: int| 0 <= j < iv@.len() ==> (#[trigger] iv@[j]).0 != eid,
{
    let mut lo: usize = 0;
    let mut hi: usize = iv.len();
    while lo < hi
        invariant
            lo <= hi <= iv@.len(),
            intervals_wf(iv@),
            forall|j: int| 0 <= j < iv@.len() && (#[trigger] iv@[j]).0 == eid ==> lo <= j < hi,
        decreases hi - lo,
    {
        let mid = lo + (hi - lo) / 2;
        let (start, _end) = iv[mid];
        if start == eid {
            return Some(mid);
        } else if start < eid {
            proof {
                assert forall|j: int|
                    0 <= j < iv@.len() && (#[trigger] iv@[j]).0 == eid implies mid + 1 <= j by {
                    lemma_intervals_ordered(iv@, if j <= mid { j } else { mid as int }, if j <= mid
                        {
                        mid as int
                    } else {
                        j
                    });
                }
            }
            lo = mid + 1;
        } else {
            proof {
                assert forall|j: int|
                    0 <= j < iv@.len() && (#[trigger] iv@[j]).0 == eid implies j < mid by {
                    lemma_intervals_ordered(iv@, if j <= mid { j } else { mid as int }, if j <= mid
                        {
                        mid as int
                    } else {
                        j
                    });
                }
            }
            hi = mid;
        }
    }
    None
}

/// Locates the interval that is active at `eid` (starts before it, ends at or
/// after it) in one cell's chain.
fn find_read_interval(iv: &Vec<(u32, u32)>, eid: u32) -> (r: Option<usize>)
    requires
        intervals_wf(iv@),
    ensures
        r matches Some(j) ==> j < iv@.len() && iv@[j as int].0 < eid && eid <= iv@[j as int].1,
        r is None ==> forall|j: int|
            0 <= j < iv@.len() ==> !((#[trigger] iv@[j]).0 < eid && eid <= iv@[j].1),
{
    let mut lo: usize = 0;
    let mut hi: usize = iv.len();
    while lo < hi
        invariant
            lo <= hi <= iv@.len(),
            intervals_wf(iv@),
            forall|j: int|
                0 <= j < iv@.len() && (#[trigger] iv@[j]).0 < eid && eid <= iv@[j].1 ==> lo <= j
                    < hi,
        decreases hi - lo,
    {
        let mid = lo + (hi - lo) / 2;
        let (start, end) = iv[mid];
        if eid <= start {
            proof {
                assert forall|j: int|
                    0 <= j < iv@.len() && (#[trigger] iv@[j]).0 < eid && eid <= iv@[j].1 implies j
                    < mid by {
                    if j > mid {
                        lemma_intervals_ordered(iv@, mid as int, j);
                    }
                }
            }
            hi = mid;
        } else if eid > end {
            proof {
                assert forall|j: int|
                    0 <= j < iv@.len() && (#[trigger] iv@[j]).0 < eid && eid <= iv@[j].1 implies mid
                    + 1 <= j by {
                    if j < mid {
                        lemma_intervals_ordered(iv@, j, mid as int);
                    }
                }
            }
            lo = mid + 1;
        } else {
            return Some(mid);
        }
    }
    None
}

impl MemoryWritingLookup {
    /// Answers which validity interval a memory access falls into: for a
    /// write, the interval starting exactly at `eid`; for a read, the unique
    /// interval active at `eid`. `None` when the index holds no such
    /// interval, which marks the access as inconsistent with the trace.
    pub fn resolve(&self, ltype: LocationType, offset: u32, eid: u32, is_write: bool) -> (r:
        Option<(u32, u32)>)
        requires
            self.wf(),
        ensures
            r matches Some(p) ==> self.contains_interval(ltype, offset, p.0, p.1) && (if is_write {
                p.0 == eid
            } else {
                p.0 < eid && eid <= p.1
            }),
            r is None ==> forall|s: u32, e: u32|
                #[trigger] self.contains_interval(ltype, offset, s, e) ==> (if is_write {
                    s != eid
                } else {
                    !(s < eid && eid <= e)
                }),
    {
        let key = crate::mtable::cell_key_of(ltype, offset);
        let group_index = match self.find_group(key) {
            Some(g) => g,
            None => {
                proof {
                    assert forall|s: u32, e: u32|
                        #[trigger] self.contains_interval(ltype, offset, s, e) implies false by {
                        let (g, j): (int, int) = choose|g: int, j: int|
                            0 <= g < self.0@.len() && 0 <= j < (#[trigger] self.0@[
                                g
                            ]).intervals@.len() && self.0@[g].ltype == ltype && self.0@[g].offset
                                == offset && (#[trigger] self.0@[g].intervals@[j]) == (s, e);
                        assert(cell_key_spec(self.0@[g].ltype, self.0@[g].offset) == key);
                    }
                }
                return None;
            },
        };
        let found = if is_write {
            find_write_interval(&self.0[group_index].intervals, eid)
        } else {
            find_read_interval(&self.0[group_index].intervals, eid)
        };
        match found {
            Some(j) => {
                let p = self.0[group_index].intervals[j];
                proof {
                    lemma_cell_key_injective(
                        self.0@[group_index as int].ltype,
                        self.0@[group_index as int].offset,
                        ltype,
                        offset,
                    );
                    assert(self.0@[group_index as int].intervals@[j as int] == p);
                }
                Some(p)
            },
            None => {
                proof {
                    assert forall|s: u32, e: u32|
                        #[trigger] self.contains_interval(ltype, offset, s, e) implies (if is_write {
                        s != eid
                    } else {
                        !(s < eid && eid <= e)
                    }) by {
                        let (g, j): (int, int) = choose|g: int, j: int|
                            0 <= g < self.0@.len() && 0 <= j < (#[trigger] self.0@[
                                g
                            ]).intervals@.len() && self.0@[g].ltype == ltype && self.0@[g].offset
                                == offset && (#[trigger] self.0@[g].intervals@[j]) == (s, e);
                        if g != group_index as int {
                            assert(cell_key_spec(self.0@[g].ltype, self.0@[g].offset) == key);
                            assert(cell_key_spec(
                                self.0@[group_index as int].ltype,
                                self.0@[group_index as int].offset,
                            ) == key);
                            if g < group_index as int {
                                assert(false);
                            } else {
                                assert(false);
                            }
                        }
                    }
                }
                None
            },
        }
    }
}


/// Appending an interval that starts where the chain ends preserves a cell
/// chain's well-formedness.
proof fn lemma_intervals_wf_push(iv: Seq<(u32, u32)>, x: (u32, u32))
    requires
        intervals_wf(iv),
        iv.len() > 0 ==> iv.last().1 == x.0,
        x.0 < x.1,
    ensures
        intervals_wf(iv.push(x)),
{
    let c = iv.push(x);
    assert forall|j: int| 0 <= j < c.len() implies (#[trigger] c[j]).0 < c[j].1 by {
        assert(c[j] == if j < iv.len() { iv[j] } else { x });
    }
    assert forall|j: int| 0 <= j && j + 1 < c.len() implies (#[trigger] c[j]).1 == c[j + 1].0 by {
        assert(c[j] == iv[j]);
        assert(c[j + 1] == if j + 1 < iv.len() { iv[j + 1] } else { x });
        if j + 1 == iv.len() {
            assert(iv[j] == iv.last());
        }
    }
}

/// The loop invariants of the index builder, at position `i` of the resolved
/// list.
pub open spec fn build_inv(
    t: Seq<MemoryWritingEntry>,
    groups: Seq<LocationIntervals>,
    i: int,
) -> bool {
    &&& lookup_groups_wf(groups)
    &&& (groups.len() > 0) <==> (i > 0)
    &&& (i > 0 ==> groups.last().ltype == t[i - 1].entry.ltype && groups.last().offset == t[i
        - 1].entry.offset && groups.last().intervals@.len() > 0 && groups.last().intervals@.last()
        == (t[i - 1].entry.eid, t[i - 1].end_eid))
    &&& forall|lt: LocationType, off: u32, s: u32, e: u32|
        #[trigger] lookup_contains(groups, lt, off, s, e) ==> table_has_interval_upto(
            t,
            i,
            lt,
            off,
            s,
            e,
        )
    &&& forall|p: int|
        0 <= p < i ==> lookup_contains(
            groups,
            (#[trigger] t[p]).entry.ltype,
            t[p].entry.offset,
            t[p].entry.eid,
            t[p].end_eid,
        )
}

/// Opening a new cell group preserves the index builder's invariants.
#[verifier::rlimit(100)]
#[verifier::spinoff_prover]
proof fn lemma_build_new_group(
    t: Seq<MemoryWritingEntry>,
    groups: Seq<LocationIntervals>,
    i: int,
    group: LocationIntervals,
)
    requires
        writing_entries_wf(t),
        0 <= i < t.len(),
        build_inv(t, groups, i),
        group.ltype == t[i].entry.ltype,
        group.offset == t[i].entry.offset,
        group.intervals@ == seq![(t[i].entry.eid, t[i].end_eid)],
        groups.len() > 0 ==> cell_key_spec(groups.last().ltype, groups.last().offset)
            != cell_key_spec(group.ltype, group.offset),
    ensures
        build_inv(t, groups.push(group), i + 1),
{
    let gs = groups.push(group);
    assert(gs.last() == group);
    if i > 0 {
        assert(entry_le(t[i - 1].entry, t[i].entry));
        assert(cell_key_spec(groups.last().ltype, groups.last().offset) < cell_key_spec(
            group.ltype,
            group.offset,
        ));
    }
    assert forall|g: int, h: int| 0 <= g < h < gs.len() implies cell_key_spec(
        (#[trigger] gs[g]).ltype,
        gs[g].offset,
    ) < cell_key_spec((#[trigger] gs[h]).ltype, gs[h].offset) by {
        assert(gs[g] == groups[g]);
        assert(gs[h] == if h < groups.len() {
            groups[h]
        } else {
            group
        });
        if h == groups.len() && g < groups.len() - 1 {
            assert(groups[groups.len() - 1] == groups.last());
        }
    }
    assert forall|g: int| 0 <= g < gs.len() implies (#[trigger] gs[g]).intervals@.len() > 0
        && intervals_wf(gs[g].intervals@) by {
        assert(gs[g] == if g < groups.len() {
            groups[g]
        } else {
            group
        });
    }
    assert(t[i].entry.eid < t[i].end_eid);
    assert forall|lt2: LocationType, off2: u32, s2: u32, e2: u32|
        #[trigger] lookup_contains(gs, lt2, off2, s2, e2) implies table_has_interval_upto(
        t,
        i + 1,
        lt2,
        off2,
        s2,
        e2,
    ) by {
        let (g, j): (int, int) = choose|g: int, j: int|
            0 <= g < gs.len() && 0 <= j < (#[trigger] gs[g]).intervals@.len() && gs[g].ltype == lt2
                && gs[g].offset == off2 && (#[trigger] gs[g].intervals@[j]) == (s2, e2);
        if g < groups.len() {
            assert(gs[g] == groups[g]);
            assert(lookup_contains(groups, lt2, off2, s2, e2));
        } else {
            assert(gs[g] == group);
            assert(t[i].entry.ltype == lt2 && t[i].entry.offset == off2 && t[i].entry.eid == s2
                && t[i].end_eid == e2);
        }
    }
    assert forall|p: int| 0 <= p < i + 1 implies lookup_contains(
        gs,
        (#[trigger] t[p]).entry.ltype,
        t[p].entry.offset,
        t[p].entry.eid,
        t[p].end_eid,
    ) by {
        if p < i {
            let (g, j): (int, int) = choose|g: int, j: int|
                0 <= g < groups.len() && 0 <= j < (#[trigger] groups[g]).intervals@.len()
                    && groups[g].ltype == t[p].entry.ltype && groups[g].offset
                    == t[p].entry.offset && (#[trigger] groups[g].intervals@[j]) == (
                t[p].entry.eid,
                t[p].end_eid,
                );
            assert(gs[g] == groups[g]);
            assert((#[trigger] gs[g].intervals@[j]) == (t[p].entry.eid, t[p].end_eid));
        } else {
            assert((gs[groups.len() as int].intervals@[0]) == (t[p].entry.eid, t[p].end_eid));
        }
    }
}

/// Extending the last cell group preserves the index builder's invariants.
#[verifier::rlimit(100)]
#[verifier::spinoff_prover]
proof fn lemma_build_append(
    t: Seq<MemoryWritingEntry>,
    groups: Seq<LocationIntervals>,
    i: int,
    newg: LocationIntervals,
)
    requires
        writing_entries_wf(t),
        0 < i < t.len(),
        build_inv(t, groups, i),
        groups.len() > 0,
        cell_key_spec(groups.last().ltype, groups.last().offset) == cell_key_spec(
            t[i].entry.ltype,
            t[i].entry.offset,
        ),
        newg.ltype == groups.last().ltype,
        newg.offset == groups.last().offset,
        newg.intervals@ == groups.last().intervals@.push((t[i].entry.eid, t[i].end_eid)),
    ensures
        build_inv(t, groups.drop_last().push(newg), i + 1),
{
    let gs = groups.drop_last().push(newg);
    lemma_cell_key_injective(
        groups.last().ltype,
        groups.last().offset,
        t[i].entry.ltype,
        t[i].entry.offset,
    );
    assert(same_location(t[i - 1].entry, t[i].entry));
    assert(t[i - 1].end_eid == t[i].entry.eid);
    assert(t[i].entry.eid < t[i].end_eid);
    assert(gs.len() == groups.len());
    assert(groups[groups.len() - 1] == groups.last());
    assert forall|g2: int| 0 <= g2 < gs.len() implies #[trigger] gs[g2] == (if g2 < gs.len() - 1 {
        groups[g2]
    } else {
        newg
    }) by {}
    lemma_intervals_wf_push(groups.last().intervals@, (t[i].entry.eid, t[i].end_eid));
    assert forall|g2: int, h2: int| 0 <= g2 < h2 < gs.len() implies cell_key_spec(
        (#[trigger] gs[g2]).ltype,
        gs[g2].offset,
    ) < cell_key_spec((#[trigger] gs[h2]).ltype, gs[h2].offset) by {}
    assert forall|g2: int| 0 <= g2 < gs.len() implies (#[trigger] gs[g2]).intervals@.len() > 0
        && intervals_wf(gs[g2].intervals@) by {}
    assert forall|lt2: LocationType, off2: u32, s2: u32, e2: u32|
        #[trigger] lookup_contains(gs, lt2, off2, s2, e2) implies table_has_interval_upto(
        t,
        i + 1,
        lt2,
        off2,
        s2,
        e2,
    ) by {
        let (g2, j2): (int, int) = choose|g2: int, j2: int|
            0 <= g2 < gs.len() && 0 <= j2 < (#[trigger] gs[g2]).intervals@.len() && gs[g2].ltype
                == lt2 && gs[g2].offset == off2 && (#[trigger] gs[g2].intervals@[j2]) == (s2, e2);
        if g2 < gs.len() - 1 {
            assert(gs[g2] == groups[g2]);
            assert(lookup_contains(groups, lt2, off2, s2, e2));
        } else {
            assert(gs[g2] == newg);
            if j2 < groups.last().intervals@.len() {
                assert((#[trigger] groups[g2].intervals@[j2]) == (s2, e2));
                assert(lookup_contains(groups, lt2, off2, s2, e2));
            } else {
                assert(newg.intervals@[j2] == (t[i].entry.eid, t[i].end_eid));
                assert(t[i].entry.ltype == lt2 && t[i].entry.offset == off2 && t[i].entry.eid
                    == s2 && t[i].end_eid == e2);
            }
        }
    }
    assert forall|p: int| 0 <= p < i + 1 implies lookup_contains(
        gs,
        (#[trigger] t[p]).entry.ltype,
        t[p].entry.offset,
        t[p].entry.eid,
        t[p].end_eid,
    ) by {
        if p < i {
            let (g2, j2): (int, int) = choose|g2: int, j2: int|
                0 <= g2 < groups.len() && 0 <= j2 < (#[trigger] groups[g2]).intervals@.len()
                    && groups[g2].ltype == t[p].entry.ltype && groups[g2].offset
                    == t[p].entry.offset && (#[trigger] groups[g2].intervals@[j2]) == (
                t[p].entry.eid,
                t[p].end_eid,
                );
            if g2 < gs.len() - 1 {
                assert((#[trigger] gs[g2].intervals@[j2]) == (t[p].entry.eid, t[p].end_eid));
            } else {
                assert(groups[g2] == groups.last());
                assert(newg.intervals@[j2] == groups.last().intervals@[j2]);
                assert((#[trigger] gs[g2].intervals@[j2]) == (t[p].entry.eid, t[p].end_eid));
            }
        } else {
            let lastg = gs.len() - 1;
            let lastj = newg.intervals@.len() - 1;
            assert((#[trigger] gs[lastg].intervals@[lastj]) == (t[p].entry.eid, t[p].end_eid));
        }
    }
}

impl MemoryWritingTable {
    /// Builds the per-cell interval index of a resolved list: one group per
    /// written cell, in cell order, holding the cell's intervals in
    /// chronological order. The index holds exactly the intervals of the
    /// list.
    #[verifier::rlimit(100)]
    #[verifier::spinoff_prover]
    pub fn build_lookup_mapping(&self) -> (r: MemoryWritingLookup)
        requires
            self.wf(),
        ensures
            r.wf(),
            forall|lt: LocationType, off: u32, s: u32, e: u32|
                #[trigger] r.contains_interval(lt, off, s, e) <==> table_has_interval(
                    self.0@,
                    lt,
                    off,
                    s,
                    e,
                ),
    {
        let ghost t = self.0@;
        let n = self.0.len();
        let mut groups: Vec<LocationIntervals> = Vec::new();
        let mut i: usize = 0;
        while i < n
            invariant
                n == t.len(),
                t == self.0@,
                writing_entries_wf(t),
                i <= n,
                build_inv(t, groups@, i as int),
            decreases n - i,
        {
            let entry = &self.0[i];
            let lt = entry.entry.ltype;
            let off = entry.entry.offset;
            let key = crate::mtable::cell_key_of(lt, off);
            let iv = (entry.entry.eid, entry.end_eid);
            let ghost old_groups = groups@;
            let is_new_group = if groups.len() == 0 {
                true
            } else {
                let gl = groups.len() - 1;
                crate::mtable::cell_key_of(groups[gl].ltype, groups[gl].offset) != key
            };
            if is_new_group {
                let mut intervals: Vec<(u32, u32)> = Vec::new();
                intervals.push(iv);
                let group = LocationIntervals { ltype: lt, offset: off, intervals };
                proof {
                    assert(group.intervals@ =~= seq![(t[i as int].entry.eid, t[i as int].end_eid)]);
                    lemma_build_new_group(t, old_groups, i as int, group);
                }
                groups.push(group);
            } else {
                let mut g = match groups.pop() {
                    Some(g) => g,
                    None => {
                        proof {
                            assert(false);
                        }
                        LocationIntervals { ltype: lt, offset: off, intervals: Vec::new() }
                    },
                };
                g.intervals.push(iv);
                proof {
                    assert(old_groups.last() == old_groups[old_groups.len() - 1]);
                    lemma_build_append(t, old_groups, i as int, g);
                }
                groups.push(g);
                proof {
                    assert(groups@ == old_groups.drop_last().push(g));
                }
            }
            i += 1;
        }
        proof {
            assert forall|lt: LocationType, off: u32, s: u32, e: u32|
                #[trigger] lookup_contains(groups@, lt, off, s, e) <==> table_has_interval(
                t,
                lt,
                off,
                s,
                e,
            ) by {
                if table_has_interval(t, lt, off, s, e) {
                    let p = choose|p: int|
                        0 <= p < t.len() && (#[trigger] t[p]).entry.ltype == lt
                            && t[p].entry.offset == off && t[p].entry.eid == s && t[p].end_eid
                            == e;
                    assert(lookup_contains(
                        groups@,
                        t[p].entry.ltype,
                        t[p].entry.offset,
                        t[p].entry.eid,
                        t[p].end_eid,
                    ));
                }
            }
        }
        MemoryWritingLookup(groups)
    }
}


/// A memory access of one step together with its resolved validity interval.
#[derive(Clone, Copy, Debug, PartialEq, Eq, Structural)]
pub struct MemoryRWEntry {
    pub entry: MemoryTableEntry,
    pub start_eid: u32,
    pub end_eid: u32,
}

/// One step of the execution trace with every memory access it performs
/// annotated by the interval the access falls into.
#[derive(Clone, Debug)]
pub struct EventTableEntryWithMemoryInfo {
    pub eentry: EventTableEntry,
    pub memory_rw_entires: Vec<MemoryRWEntry>,
}

/// The execution trace joined with the memory lookup index, one joined step
/// per step, in order.
#[derive(Clone, Debug)]
pub struct EventTableWithMemoryInfo(pub Vec<EventTableEntryWithMemoryInfo>);

/// Two step records carry the same values, field for field.
pub open spec fn eentry_matches(a: EventTableEntry, b: EventTableEntry) -> bool {
    &&& a.eid == b.eid
    &&& a.fid == b.fid
    &&& a.iid == b.iid
    &&& a.sp == b.sp
    &&& a.last_jump_eid == b.last_jump_eid
    &&& a.allocated_memory_pages == b.allocated_memory_pages
    &&& a.memory_writing_ops == b.memory_writing_ops
    &&& a.jops == b.jops
    &&& a.is_host_public_input == b.is_host_public_input
    &&& a.is_context_input_op == b.is_context_input_op
    &&& a.is_context_output_op == b.is_context_output_op
    &&& a.is_external_host_call == b.is_external_host_call
    &&& a.memory_accesses@ == b.memory_accesses@
}

/// The interval `[s, e)` is the one the access `a`, made at step `step_eid`,
/// falls into: for a write the interval starting at the step, for a read the
/// interval active at the step.
pub open spec fn access_resolves_to(
    t: Seq<MemoryWritingEntry>,
    step_eid: u32,
    a: MemoryTableEntry,
    s: u32,
    e: u32,
) -> bool {
    &&& table_has_interval(t, a.ltype, a.offset, s, e)
    &&& if a.atype == AccessType::Write {
        s == step_eid
    } else {
        s < step_eid && step_eid <= e
    }
}

/// Some interval of the resolved list answers the access.
pub open spec fn access_resolvable(
    t: Seq<MemoryWritingEntry>,
    step_eid: u32,
    a: MemoryTableEntry,
) -> bool {
    exists|s: u32, e: u32| #[trigger] access_resolves_to(t, step_eid, a, s, e)
}

/// Every access of the step trace resolves against the list.
pub open spec fn all_accesses_resolvable(
    t: Seq<MemoryWritingEntry>,
    et: Seq<EventTableEntry>,
) -> bool {
    forall|i: int, k: int|
        0 <= i < et.len() && 0 <= k < (#[trigger] et[i]).memory_accesses@.len()
            ==> access_resolvable(t, et[i].eid, #[trigger] et[i].memory_accesses@[k])
}

/// The joined step `je` carries the step `ee` and the resolved interval of
/// each of its accesses, in operand order.
pub open spec fn joined_entry_ok(
    t: Seq<MemoryWritingEntry>,
    ee: EventTableEntry,
    je: EventTableEntryWithMemoryInfo,
) -> bool {
    &&& eentry_matches(je.eentry, ee)
    &&& je.memory_rw_entires@.len() == ee.memory_accesses@.len()
    &&& forall|k: int|
        0 <= k < ee.memory_accesses@.len() ==> (#[trigger] je.memory_rw_entires@[k]).entry
            == ee.memory_accesses@[k] && access_resolves_to(
            t,
            ee.eid,
            ee.memory_accesses@[k],
            je.memory_rw_entires@[k].start_eid,
            je.memory_rw_entires@[k].end_eid,
        )
}

impl EventTableWithMemoryInfo {
    /// Joins every step of the execution trace with the validity interval of
    /// each memory access it performs, resolved against the writing table.
    /// Fails exactly when some access has no interval: a read of a cell never
    /// written, or a write absent from the resolved list — a fatal
    /// inconsistency of the upstream trace.
    #[verifier::rlimit(100)]
    #[verifier::spinoff_prover]
    pub fn new(event_table: &EventTable, memory_writing_table: &MemoryWritingTable) -> (r: Result<
        Self,
        WitnessError,
    >)
        requires
            memory_writing_table.wf(),
        ensures
            r matches Ok(j) ==> j.0@.len() == event_table.0@.len() && forall|i: int|
                0 <= i < event_table.0@.len() ==> joined_entry_ok(
                    memory_writing_table.0@,
                    event_table.0@[i],
                    #[trigger] j.0@[i],
                ),
            r is Ok <==> all_accesses_resolvable(memory_writing_table.0@, event_table.0@),
            r matches Err(e) ==> e == WitnessError::UnresolvedMemoryAccess,
    {
        let ghost t = memory_writing_table.0@;
        let lookup = memory_writing_table.build_lookup_mapping();
        let n = event_table.0.len();
        let mut out: Vec<EventTableEntryWithMemoryInfo> = Vec::new();
        let mut i: usize = 0;
        while i < n
            invariant
                t == memory_writing_table.0@,
                memory_writing_table.wf(),
                n == event_table.0@.len(),
                lookup.wf(),
                forall|lt: LocationType, off: u32, s: u32, e: u32|
                    #[trigger] lookup.contains_interval(lt, off, s, e) <==> table_has_interval(
                        t,
                        lt,
                        off,
                        s,
                        e,
                    ),
                i <= n,
                out@.len() == i,
                forall|p: int|
                    0 <= p < i ==> joined_entry_ok(t, event_table.0@[p], #[trigger] out@[p]),
            decreases n - i,
        {
            let ee = &event_table.0[i];
            let step_eid = ee.eid;
            let na = ee.memory_accesses.len();
            let mut mem: Vec<MemoryRWEntry> = Vec::new();
            let mut acc_copy: Vec<MemoryTableEntry> = Vec::new();
            let mut k: usize = 0;
            while k < na
                invariant
                    t == memory_writing_table.0@,
                    i < n,
                    n == event_table.0@.len(),
                    na == event_table.0@[i as int].memory_accesses@.len(),
                    step_eid == event_table.0@[i as int].eid,
                    lookup.wf(),
                    forall|lt: LocationType, off: u32, s: u32, e: u32|
                        #[trigger] lookup.contains_interval(lt, off, s, e) <==> table_has_interval(
                            t,
                            lt,
                            off,
                            s,
                            e,
                        ),
                    *ee == event_table.0@[i as int],
                    k <= na,
                    mem@.len() == k,
                    acc_copy@ == event_table.0@[i as int].memory_accesses@.take(k as int),
                    forall|q: int|
                        0 <= q < k ==> (#[trigger] mem@[q]).entry == event_table.0@[
                            i as int
                        ].memory_accesses@[q] && access_resolves_to(
                            t,
                            step_eid,
                            event_table.0@[i as int].memory_accesses@[q],
                            mem@[q].start_eid,
                            mem@[q].end_eid,
                        ),
                decreases na - k,
            {
                let a = ee.memory_accesses[k];
                let is_write = matches!(a.atype, AccessType::Write);
                match lookup.resolve(a.ltype, a.offset, step_eid, is_write) {
                    Some(p) => {
                        proof {
                            assert(lookup.contains_interval(a.ltype, a.offset, p.0, p.1));
                            assert(access_resolves_to(t, step_eid, a, p.0, p.1));
                        }
                        mem.push(MemoryRWEntry { entry: a, start_eid: p.0, end_eid: p.1 });
                    },
                    None => {
                        proof {
                            assert(!access_resolvable(t, step_eid, a)) by {
                                if access_resolvable(t, step_eid, a) {
                                    let (s, e): (u32, u32) = choose|s: u32, e: u32|
                                        #[trigger] access_resolves_to(t, step_eid, a, s, e);
                                    assert(lookup.contains_interval(a.ltype, a.offset, s, e));
                                }
                            }
                            assert(event_table.0@[i as int].memory_accesses@[k as int] == a);
                            assert(!all_accesses_resolvable(t, event_table.0@)) by {
                                if all_accesses_resolvable(t, event_table.0@) {
                                    assert(access_resolvable(
                                        t,
                                        event_table.0@[i as int].eid,
                                        event_table.0@[i as int].memory_accesses@[k as int],
                                    ));
                                }
                            }
                        }
                        return Err(WitnessError::UnresolvedMemoryAccess);
                    },
                }
                proof {
                    event_table.0@[i as int].memory_accesses@.lemma_take_succ_push(k as int);
                }
                acc_copy.push(a);
                k += 1;
            }
            proof {
                event_table.0@[i as int].memory_accesses@.lemma_take_len();
                assert(acc_copy@ == event_table.0@[i as int].memory_accesses@);
            }
            let joined = EventTableEntryWithMemoryInfo {
                eentry: EventTableEntry {
                    eid: ee.eid,
                    fid: ee.fid,
                    iid: ee.iid,
                    sp: ee.sp,
                    last_jump_eid: ee.last_jump_eid,
                    allocated_memory_pages: ee.allocated_memory_pages,
                    memory_writing_ops: ee.memory_writing_ops,
                    jops: ee.jops,
                    is_host_public_input: ee.is_host_public_input,
                    is_context_input_op: ee.is_context_input_op,
                    is_context_output_op: ee.is_context_output_op,
                    is_external_host_call: ee.is_external_host_call,
                    memory_accesses: acc_copy,
                },
                memory_rw_entires: mem,
            };
            proof {
                assert(joined_entry_ok(t, event_table.0@[i as int], joined));
            }
            out.push(joined);
            i += 1;
        }
        proof {
            assert forall|i2: int, k2: int|
                0 <= i2 < event_table.0@.len() && 0 <= k2 < (#[trigger] event_table.0@[
                    i2
                ]).memory_accesses@.len() implies access_resolvable(
                t,
                event_table.0@[i2].eid,
                #[trigger] event_table.0@[i2].memory_accesses@[k2],
            ) by {
                assert(joined_entry_ok(t, event_table.0@[i2], out@[i2]));
                let m = out@[i2].memory_rw_entires@[k2];
                assert(access_resolves_to(
                    t,
                    event_table.0@[i2].eid,
                    event_table.0@[i2].memory_accesses@[k2],
                    m.start_eid,
                    m.end_eid,
                ));
            }
        }
        Ok(EventTableWithMemoryInfo(out))
    }
}

} // verus!
