//! Principal-variation bookkeeping.
//!
//! [`PvTable`] keeps one line per ply: `table[p]` is the best continuation
//! found from ply `p` in the current iteration. [`MultiPv`] is a bounded
//! top-K buffer of `(score, line)` pairs kept sorted by descending score;
//! an insertion places the new line after all lines of equal or greater
//! score (the stable order) and the buffer is truncated to its capacity.
use vstd::prelude::*;

use crate::moves::Mv;

verus! {

#[derive(Clone)]
pub struct PvTable {
    pub table: Vec<Vec<Mv>>,
}

impl PvTable {
    /// Allocates `max_depth + 1` empty lines.
    pub fn new(max_depth: usize) -> (r: Self)
        requires
            max_depth < usize::MAX,
        ensures
            r.table@.len() == max_depth + 1,
            forall|i: int| 0 <= i < r.table@.len() ==> (#[trigger] r.table@[i])@.len() == 0,
    {
        let empty: Vec<Mv> = Vec::new();
        PvTable { table: vec![empty; max_depth + 1] }
    }

    /// Empties the line at `ply` only.
    pub fn clear_from(&mut self, ply: usize)
        requires
            ply < old(self).table@.len(),
        ensures
            final(self).table@.len() == old(self).table@.len(),
            final(self).table@[ply as int]@.len() == 0,
            forall|i: int|
                0 <= i < old(self).table@.len() && i != ply ==> final(self).table@[i] == old(
                    self,
                ).table@[i],
    {
        let empty: Vec<Mv> = Vec::new();
        self.table.set(ply, empty);
    }

    /// Overwrites the line at `ply` with `mv` followed by the child line.
    pub fn set_pv(&mut self, ply: usize, mv: Mv, child_pv: &Vec<Mv>)
        requires
            ply < old(self).table@.len(),
        ensures
            final(self).table@.len() == old(self).table@.len(),
            final(self).table@[ply as int]@ == seq![mv] + child_pv@,
            forall|i: int|
                0 <= i < old(self).table@.len() && i != ply ==> final(self).table@[i] == old(
                    self,
                ).table@[i],
    {
        let mut line: Vec<Mv> = Vec::new();
        line.push(mv);
        line.extend_from_slice(child_pv.as_slice());
        proof {
            assert(line@ =~= seq![mv] + child_pv@);
        }
        self.table.set(ply, line);
    }

    /// The first move of the root line, if any.
    pub fn best_move(&self) -> (r: Option<Mv>)
        requires
            self.table@.len() > 0,
        ensures
            r == if self.table@[0]@.len() > 0 {
                Some(self.table@[0]@[0])
            } else {
                None::<Mv>
            },
    {
        let line = &self.table[0];
        if line.len() > 0 {
            Some(line[0])
        } else {
            None
        }
    }

    /// The root line.
    pub fn pv_line(&self) -> (r: &Vec<Mv>)
        requires
            self.table@.len() > 0,
        ensures
            r == self.table@[0],
    {
        &self.table[0]
    }
}

/// Scores never increase along the buffer.
pub open spec fn sorted_desc(s: Seq<(i64, Vec<Mv>)>) -> bool {
    forall|i: int, j: int| 0 <= i < j < s.len() ==> (#[trigger] s[i]).0 >= (#[trigger] s[j]).0
}

/// Where a stable descending insertion places a new score: after every
/// element of equal or greater score.
pub open spec fn spec_insert_pos(s: Seq<(i64, Vec<Mv>)>, score: i64) -> int
    decreases s.len(),
{
    if s.len() == 0 {
        0
    } else if s[0].0 < score {
        0
    } else {
        1 + spec_insert_pos(s.drop_first(), score)
    }
}

pub proof fn lemma_insert_pos_bounds(s: Seq<(i64, Vec<Mv>)>, score: i64)
    ensures
        0 <= spec_insert_pos(s, score) <= s.len(),
    decreases s.len(),
{
    if s.len() > 0 && s[0].0 >= score {
        lemma_insert_pos_bounds(s.drop_first(), score);
    }
}

proof fn lemma_insert_pos_char(s: Seq<(i64, Vec<Mv>)>, score: i64, p: int)
    requires
        0 <= p <= s.len(),
        forall|i: int| 0 <= i < p ==> (#[trigger] s[i]).0 >= score,
        p == s.len() || s[p].0 < score,
    ensures
        p == spec_insert_pos(s, score),
    decreases s.len(),
{
    if s.len() == 0 {
    } else if s[0].0 < score {
        assert(p == 0);
    } else {
        assert(p >= 1);
        let t = s.drop_first();
        assert(forall|i: int| 0 <= i < p - 1 ==> (#[trigger] t[i]).0 >= score);
        lemma_insert_pos_char(t, score, p - 1);
    }
}

pub struct MultiPv {
    pub lines: Vec<(i64, Vec<Mv>)>,
    pub capacity: usize,
}

impl MultiPv {
    /// The buffer is sorted by descending score and within capacity.
    pub open spec fn wf(self) -> bool {
        &&& sorted_desc(self.lines@)
        &&& self.lines@.len() <= self.capacity
    }

    pub fn new(capacity: usize) -> (r: Self)
        ensures
            r.wf(),
            r.lines@.len() == 0,
            r.capacity == capacity,
    {
        MultiPv { lines: Vec::new(), capacity }
    }

    pub fn clear(&mut self)
        ensures
            final(self).wf(),
            final(self).lines@.len() == 0,
            final(self).capacity == old(self).capacity,
    {
        self.lines.clear();
    }

    /// Stable descending insertion, truncated to capacity: the new pair
    /// lands after every pair of equal or greater score, and whatever falls
    /// past the capacity is dropped.
    pub fn insert(&mut self, score: i64, line: Vec<Mv>)
        requires
            old(self).wf(),
        ensures
            final(self).wf(),
            final(self).capacity == old(self).capacity,
            final(self).lines@ == old(self).lines@.insert(
                spec_insert_pos(old(self).lines@, score),
                (score, line),
            ).take(
                if old(self).lines@.len() + 1 <= old(self).capacity {
                    old(self).lines@.len() + 1int
                } else {
                    old(self).capacity as int
                },
            ),
    {
        let n = self.lines.len();
        let mut p: usize = 0;
        while p < n && self.lines[p].0 >= score
            invariant
                n == self.lines@.len(),
                p <= n,
                forall|i: int| 0 <= i < p ==> (#[trigger] self.lines@[i]).0 >= score,
                self == old(self),
            decreases n - p,
        {
            p = p + 1;
        }
        proof {
            lemma_insert_pos_char(self.lines@, score, p as int);
        }
        self.lines.insert(p, (score, line));
        if self.lines.len() > self.capacity {
            self.lines.truncate(self.capacity);
        }
        proof {
            let inserted = old(self).lines@.insert(p as int, (score, line));
            assert(self.lines@ =~= inserted.take(
                if old(self).lines@.len() + 1 <= old(self).capacity {
                    old(self).lines@.len() + 1int
                } else {
                    old(self).capacity as int
                },
            ));
            assert forall|i: int, j: int| 0 <= i < j < self.lines@.len() implies (
            #[trigger] self.lines@[i]).0 >= (#[trigger] self.lines@[j]).0 by {
                assert(self.lines@[i] == inserted[i]);
                assert(self.lines@[j] == inserted[j]);
            }
        }
    }
}

} // verus!
