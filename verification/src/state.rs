//! Engine state that outlives individual searches: the current position,
//! the game-history repetition stack, and the transposition table.
use vstd::prelude::*;

use crate::moves::Mv;
use crate::position::{play, pos_legal_moves, pos_play, pos_zobrist, startpos, zobrist};
use crate::tt::TranspositionTable;

verus! {

pub struct EngineState {
    pub position: shakmaty::Chess,
    pub repetition_stack: Vec<u64>,
    pub tt: TranspositionTable,
}

impl EngineState {
    /// The starting position, its hash as the sole history entry, and a
    /// fresh transposition table of the requested size in mebibytes.
    pub fn new(tt_size: usize) -> (r: Self)
        requires
            tt_size <= 16_384,
        ensures
            r.tt.wf(),
            r.tt.entries == 0,
            r.repetition_stack@ == seq![pos_zobrist(r.position)],
    {
        let position = startpos();
        let mut repetition_stack: Vec<u64> = Vec::with_capacity(256);
        let hash = zobrist(&position);
        repetition_stack.push(hash);
        proof {
            assert(repetition_stack@ =~= seq![pos_zobrist(position)]);
        }
        EngineState { position, repetition_stack, tt: TranspositionTable::new(tt_size) }
    }

    /// Resets the history to the current position's hash alone.
    pub fn init_history(&mut self)
        ensures
            final(self).position == old(self).position,
            final(self).tt == old(self).tt,
            final(self).repetition_stack@ == seq![pos_zobrist(final(self).position)],
    {
        self.repetition_stack.clear();
        let hash = zobrist(&self.position);
        self.repetition_stack.push(hash);
        proof {
            assert(self.repetition_stack@ =~= seq![pos_zobrist(self.position)]);
        }
    }

    /// Appends the current position's hash to the history.
    pub fn increase_history(&mut self)
        ensures
            final(self).position == old(self).position,
            final(self).tt == old(self).tt,
            final(self).repetition_stack@ == old(self).repetition_stack@.push(
                pos_zobrist(final(self).position),
            ),
    {
        let hash = zobrist(&self.position);
        self.repetition_stack.push(hash);
    }

    /// Plays a move on the current position. A move legal in the position
    /// is played and acknowledged; on failure nothing changes.
    pub fn apply_move(&mut self, m: &Mv) -> (ok: bool)
        requires
            m.wf(),
        ensures
            final(self).tt == old(self).tt,
            final(self).repetition_stack == old(self).repetition_stack,
            pos_legal_moves(old(self).position).contains(*m) ==> ok && final(self).position
                == pos_play(old(self).position, *m),
            !ok ==> final(self).position == old(self).position,
    {
        match play(&self.position, m) {
            Some(next) => {
                self.position = next;
                true
            },
            None => false,
        }
    }
}

} // verus!
