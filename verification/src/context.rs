//! The aggregated mutable state of one search.
//!
//! A [`SearchContext`] owns everything a search mutates: the principal
//! variation table, the Multi-PV buffer, the statistics, the repetition
//! stack of Zobrist hashes, and the transposition table, together with the
//! read-only parameters and move orderer.
use vstd::prelude::*;

use crate::ordering::MoveOrdering;
use crate::params::Params;
use crate::position::{halfmoves, pos_halfmoves};
use crate::pv::{MultiPv, PvTable};
use crate::search::{SearchStats, MAX_PLY};
use crate::tt::TranspositionTable;

verus! {

/// Occurrences of `v` in `s`.
pub open spec fn count_eq(s: Seq<u64>, v: u64) -> int
    decreases s.len(),
{
    if s.len() == 0 {
        0
    } else {
        count_eq(s.drop_last(), v) + if s.last() == v {
            1int
        } else {
            0int
        }
    }
}

/// Threefold repetition over a stack of Zobrist hashes: the current (last)
/// hash occurs at least twice more among the positions reachable within the
/// halfmove clock, i.e. in `stack[max(0, len - halfmoves - 1) .. len - 1]`.
pub open spec fn spec_threefold(stack: Seq<u64>, halfmoves: u32) -> bool {
    if stack.len() == 0 {
        false
    } else {
        let start = if stack.len() >= halfmoves + 1 {
            stack.len() - (halfmoves + 1)
        } else {
            0int
        };
        count_eq(stack.subrange(start, stack.len() - 1), stack.last()) >= 2
    }
}

pub struct SearchContext {
    pub params: Params,
    pub ordering: MoveOrdering,
    pub pv: PvTable,
    pub stats: SearchStats,
    pub multipv: MultiPv,
    pub repetition_stack: Vec<u64>,
    pub tt: TranspositionTable,
}

impl SearchContext {
    pub open spec fn wf(self) -> bool {
        &&& self.params.wf()
        &&& self.ordering.wf()
        &&& self.pv.table@.len() == MAX_PLY + 1
        &&& self.multipv.wf()
        &&& self.tt.wf()
    }

    /// Builds a fresh context around the given parameters, orderer and
    /// transposition table, with an empty principal variation, empty
    /// Multi-PV buffer and empty repetition stack.
    pub fn new(
        params: Params,
        ordering: MoveOrdering,
        multipv_count: usize,
        tt: TranspositionTable,
    ) -> (r: Self)
        requires
            params.wf(),
            ordering.wf(),
            tt.wf(),
        ensures
            r.wf(),
            r.params == params,
            r.ordering == ordering,
            r.tt == tt,
            r.repetition_stack@.len() == 0,
            r.multipv.capacity == multipv_count,
            r.multipv.lines@.len() == 0,
            r.stats == SearchStats::spec_default(),
            forall|i: int| 0 <= i < r.pv.table@.len() ==> (#[trigger] r.pv.table@[i])@.len() == 0,
    {
        SearchContext {
            params,
            ordering,
            pv: PvTable::new(MAX_PLY),
            stats: SearchStats::default(),
            multipv: MultiPv::new(multipv_count),
            repetition_stack: Vec::with_capacity(256),
            tt,
        }
    }

    /// Whether the current position repeats at least twice more within the
    /// halfmove-clock window of the repetition stack.
    pub fn is_threefold(&self, pos: &shakmaty::Chess) -> (r: bool)
        ensures
            r == spec_threefold(self.repetition_stack@, pos_halfmoves(*pos)),
    {
        let len = self.repetition_stack.len();
        if len == 0 {
            return false;
        }
        let current = self.repetition_stack[len - 1];
        let hm = halfmoves(pos);
        let window = (hm as u64) + 1;
        let start: usize = if (len as u64) > window {
            (len as u64 - window) as usize
        } else {
            0
        };
        let mut count: u64 = 0;
        let mut i = start;
        proof {
            assert(self.repetition_stack@.subrange(start as int, start as int)
                =~= Seq::<u64>::empty());
        }
        while i < len - 1
            invariant
                len == self.repetition_stack@.len(),
                len >= 1,
                start <= i <= len - 1,
                current == self.repetition_stack@.last(),
                count == count_eq(
                    self.repetition_stack@.subrange(start as int, i as int),
                    current,
                ),
                count <= i,
            decreases len - i,
        {
            proof {
                let s = self.repetition_stack@;
                assert(s.subrange(start as int, i + 1).drop_last() =~= s.subrange(
                    start as int,
                    i as int,
                ));
                assert(s.subrange(start as int, i + 1).last() == s[i as int]);
            }
            if self.repetition_stack[i] == current {
                count = count + 1;
            }
            i = i + 1;
        }
        count >= 2
    }

    /// The 50-move rule: drawn once the halfmove clock passes 100 plies.
    pub fn is_50_moves(&self, pos: &shakmaty::Chess) -> (r: bool)
        ensures
            r == (pos_halfmoves(*pos) > 100),
    {
        halfmoves(pos) > 100
    }

    /// Pushes a position hash onto the repetition stack before recursing
    /// into a child.
    pub fn increase_history(&mut self, hash: u64)
        ensures
            final(self).repetition_stack@ == old(self).repetition_stack@.push(hash),
            final(self).params == old(self).params,
            final(self).ordering == old(self).ordering,
            final(self).pv == old(self).pv,
            final(self).stats == old(self).stats,
            final(self).multipv == old(self).multipv,
            final(self).tt == old(self).tt,
    {
        self.repetition_stack.push(hash);
    }

    /// Pops the child hash after returning from it.
    pub fn decrease_history(&mut self)
        requires
            old(self).repetition_stack@.len() > 0,
        ensures
            final(self).repetition_stack@ == old(self).repetition_stack@.drop_last(),
            final(self).params == old(self).params,
            final(self).ordering == old(self).ordering,
            final(self).pv == old(self).pv,
            final(self).stats == old(self).stats,
            final(self).multipv == old(self).multipv,
            final(self).tt == old(self).tt,
    {
        self.repetition_stack.pop();
    }
}

/// The repetition-stack invariant: a balanced push/pop pair leaves the
/// stack exactly as it was, whatever hash went through it.
pub proof fn lemma_history_balanced(stack: Seq<u64>, hash: u64)
    ensures
        stack.push(hash).drop_last() == stack,
{
    assert(stack.push(hash).drop_last() =~= stack);
}

} // verus!
