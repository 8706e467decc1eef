//! Transposition table: a fixed-size, hash-indexed cache of search results.
//!
//! One slot per index, no probing beyond the primary slot. A probe answers
//! only on a full 64-bit key match. Replacement is depth-preferred: an
//! incoming store is rejected when the slot already holds a strictly deeper
//! entry; otherwise it overwrites. An occupancy counter tracks first-time
//! fills for the per-mille `hashfull` metric.
use vstd::prelude::*;

use crate::moves::Mv;
use crate::score::score_in_range;

verus! {

#[derive(Clone, Copy, PartialEq, Eq, Structural, Debug)]
pub enum Bound {
    Exact,
    Lower,
    Upper,
}

#[derive(Clone, Copy, Debug)]
pub struct TTEntry {
    pub key: u64,
    pub depth: u8,
    pub score: i64,
    pub bound: Bound,
    pub best_move: Option<Mv>,
}

/// Nominal footprint of one slot, in bytes; the table's capacity is the
/// largest power of two that fits the requested size at this footprint.
pub const TT_ENTRY_BYTES: usize = 32;

pub open spec fn is_pow2(n: int) -> bool
    decreases n,
{
    if n < 1 {
        false
    } else if n == 1 {
        true
    } else if n % 2 == 1 {
        false
    } else {
        is_pow2(n / 2)
    }
}

/// Number of filled slots.
pub open spec fn count_some(s: Seq<Option<TTEntry>>) -> int
    decreases s.len(),
{
    if s.len() == 0 {
        0
    } else {
        count_some(s.drop_last()) + if s.last() is Some {
            1int
        } else {
            0int
        }
    }
}

proof fn lemma_count_some_bounds(s: Seq<Option<TTEntry>>)
    ensures
        0 <= count_some(s) <= s.len(),
    decreases s.len(),
{
    if s.len() > 0 {
        lemma_count_some_bounds(s.drop_last());
    }
}

proof fn lemma_count_some_all_none(s: Seq<Option<TTEntry>>)
    requires
        forall|i: int| 0 <= i < s.len() ==> s[i] is None,
    ensures
        count_some(s) == 0,
    decreases s.len(),
{
    if s.len() > 0 {
        lemma_count_some_all_none(s.drop_last());
    }
}

proof fn lemma_count_some_update(s: Seq<Option<TTEntry>>, i: int, v: Option<TTEntry>)
    requires
        0 <= i < s.len(),
    ensures
        count_some(s.update(i, v)) == count_some(s) - (if s[i] is Some {
            1int
        } else {
            0int
        }) + (if v is Some {
            1int
        } else {
            0int
        }),
    decreases s.len(),
{
    let t = s.update(i, v);
    if i == s.len() - 1 {
        assert(t.drop_last() =~= s.drop_last());
    } else {
        assert(t.drop_last() =~= s.drop_last().update(i, v));
        lemma_count_some_update(s.drop_last(), i, v);
    }
}

pub struct TranspositionTable {
    pub table: Vec<Option<TTEntry>>,
    pub mask: usize,
    pub entries: usize,
}

impl TranspositionTable {
    /// The slot a key maps to.
    pub open spec fn spec_slot(self, key: u64) -> int {
        (key & (self.mask as u64)) as int
    }

    /// What a probe of `key` answers: the slot's entry on a full key match.
    pub open spec fn spec_probe(self, key: u64) -> Option<TTEntry> {
        match self.table@[self.spec_slot(key)] {
            Some(e) => if e.key == key {
                Some(e)
            } else {
                None
            },
            None => None,
        }
    }

    /// The depth-preferred policy rejects a store whose slot holds a
    /// strictly deeper entry.
    pub open spec fn rejects(self, key: u64, depth: usize) -> bool {
        match self.table@[self.spec_slot(key)] {
            Some(e) => e.depth > depth,
            None => false,
        }
    }

    /// The slot contents after a store: unchanged on rejection, otherwise
    /// the slot is overwritten with the incoming entry.
    pub open spec fn spec_store_slots(
        self,
        key: u64,
        depth: usize,
        score: i64,
        bound: Bound,
        best_move: Option<Mv>,
    ) -> Seq<Option<TTEntry>> {
        if self.rejects(key, depth) {
            self.table@
        } else {
            self.table@.update(
                self.spec_slot(key),
                Some(TTEntry { key, depth: depth as u8, score, bound, best_move }),
            )
        }
    }

    pub open spec fn wf(self) -> bool {
        &&& 1 <= self.table@.len() <= 0x100_0000_0000
        &&& self.mask + 1 == self.table@.len()
        &&& is_pow2(self.table@.len() as int)
        &&& self.entries == count_some(self.table@)
        &&& forall|i: int|
            0 <= i < self.table@.len() ==> match #[trigger] self.table@[i] {
                Some(e) => score_in_range(e.score) && self.spec_slot(e.key) == i,
                None => true,
            }
    }

    /// Allocates the table for a requested size in mebibytes: the capacity
    /// is the largest power of two no greater than the slot budget, and at
    /// least one.
    pub fn new(size_mb: usize) -> (r: Self)
        requires
            size_mb <= 16_384,
        ensures
            r.wf(),
            r.entries == 0,
            forall|i: int| 0 <= i < r.table@.len() ==> r.table@[i] is None,
            r.table@.len() <= if size_mb == 0 { 1int } else { size_mb * 32_768 },
            2 * r.table@.len() > size_mb * 32_768,
    {
        let budget = (size_mb as u64) * (1024 * 1024 / TT_ENTRY_BYTES as u64);
        let mut capacity: usize = 1;
        while (capacity as u64) * 2 <= budget
            invariant
                size_mb <= 16_384,
                budget == size_mb * 32_768,
                is_pow2(capacity as int),
                1 <= capacity,
                capacity <= if budget == 0 { 1int } else { budget as int },
            decreases budget - capacity,
        {
            capacity = capacity * 2;
        }
        let table = vec![None; capacity];
        proof {
            lemma_count_some_all_none(table@);
        }
        TranspositionTable { table, mask: capacity - 1, entries: 0 }
    }

    fn index(&self, key: u64) -> (i: usize)
        requires
            self.wf(),
        ensures
            i == self.spec_slot(key),
            i < self.table@.len(),
    {
        let m = self.mask as u64;
        proof {
            assert(key & m <= m) by (bit_vector);
        }
        (key & m) as usize
    }

    /// Looks up the single slot `key` maps to; answers only on a full
    /// 64-bit key match.
    pub fn probe(&self, key: u64) -> (r: Option<TTEntry>)
        requires
            self.wf(),
        ensures
            r == self.spec_probe(key),
    {
        let i = self.index(key);
        match self.table[i] {
            Some(e) => if e.key == key {
                Some(e)
            } else {
                None
            },
            None => None,
        }
    }

    /// Stores a result, keeping a strictly deeper existing entry instead
    /// (depth-preferred replacement); counts first-time fills.
    pub fn store(
        &mut self,
        key: u64,
        depth: usize,
        score: i64,
        bound: Bound,
        best_move: Option<Mv>,
    )
        requires
            old(self).wf(),
            depth <= 255,
            score_in_range(score),
        ensures
            final(self).wf(),
            final(self).mask == old(self).mask,
            final(self).table@ == old(self).spec_store_slots(key, depth, score, bound, best_move),
            final(self).entries == old(self).entries + (if !old(self).rejects(key, depth) && old(
                self,
            ).table@[old(self).spec_slot(key)] is None {
                1int
            } else {
                0int
            }),
    {
        let i = self.index(key);
        let n = self.table.len();
        let was_empty = self.table[i].is_none();

        if let Some(existing) = &self.table[i] {
            if existing.depth > depth as u8 {
                return ;
            }
        }
        proof {
            let upd = self.table@.update(
                i as int,
                Some(TTEntry { key, depth: depth as u8, score, bound, best_move }),
            );
            lemma_count_some_update(
                self.table@,
                i as int,
                Some(TTEntry { key, depth: depth as u8, score, bound, best_move }),
            );
            lemma_count_some_bounds(upd);
        }
        if was_empty {
            self.entries = self.entries + 1;
        }
        let entry = TTEntry { key, depth: depth as u8, score, bound, best_move };
        self.table.set(i, Some(entry));
    }

    /// Empties every slot and resets the occupancy counter.
    pub fn clear(&mut self)
        requires
            old(self).wf(),
        ensures
            final(self).wf(),
            final(self).mask == old(self).mask,
            final(self).table@.len() == old(self).table@.len(),
            final(self).entries == 0,
            forall|i: int| 0 <= i < final(self).table@.len() ==> final(self).table@[i] is None,
    {
        let n = self.table.len();
        let mut i: usize = 0;
        while i < n
            invariant
                n == self.table@.len(),
                old(self).wf(),
                self.mask == old(self).mask,
                self.entries == old(self).entries,
                i <= n,
                forall|j: int| 0 <= j < i ==> self.table@[j] is None,
                forall|j: int| i <= j < n ==> self.table@[j] == old(self).table@[j],
            decreases n - i,
        {
            self.table.set(i, None);
            i = i + 1;
        }
        self.entries = 0;
        proof {
            lemma_count_some_all_none(self.table@);
        }
    }

    /// Occupancy in per-mille of capacity, truncated: the `hashfull` metric.
    pub fn tt_occupancy(&self) -> (r: u32)
        requires
            self.wf(),
        ensures
            r == self.entries * 1000 / (self.table@.len() as int),
            r <= 1000,
    {
        proof {
            lemma_count_some_bounds(self.table@);
            let e = self.entries as int;
            let n = self.table@.len() as int;
            assert(e * 1000 / n <= 1000 && e * 1000 <= n * 1000) by (nonlinear_arith)
                requires
                    1 <= n,
                    0 <= e <= n,
            ;
        }
        ((self.entries as u64) * 1000 / (self.table.len() as u64)) as u32
    }
}

/// Depth-preferred replacement keeps deeper work (the transposition-table
/// invariant): a store finding a strictly deeper entry in its slot changes
/// nothing, and probing that entry's own key still returns it, at a depth
/// strictly above the rejected store's.
pub proof fn lemma_depth_preferred(
    tt: TranspositionTable,
    key: u64,
    depth: usize,
    score: i64,
    bound: Bound,
    best_move: Option<Mv>,
)
    requires
        tt.wf(),
        tt.rejects(key, depth),
    ensures
        tt.spec_store_slots(key, depth, score, bound, best_move) == tt.table@,
        tt.table@[tt.spec_slot(key)] matches Some(e) && tt.spec_probe(e.key) == Some(e) && e.depth
            > depth,
{
    let m = tt.mask as u64;
    assert(key & m <= m) by (bit_vector);
}

/// A store never lowers the depth recorded at any filled slot: whatever a
/// later probe finds is at least as deep as what any rejected store at that
/// slot carried.
pub proof fn lemma_store_depth_monotone(
    tt: TranspositionTable,
    key: u64,
    depth: usize,
    score: i64,
    bound: Bound,
    best_move: Option<Mv>,
    i: int,
)
    requires
        tt.wf(),
        depth <= 255,
        0 <= i < tt.table@.len(),
        tt.table@[i] is Some,
    ensures
        ({
            let post = tt.spec_store_slots(key, depth, score, bound, best_move);
            post[i] is Some && post[i]->0.depth >= tt.table@[i]->0.depth
        }),
{
    let m = tt.mask as u64;
    assert(key & m <= m) by (bit_vector);
}

} // verus!
