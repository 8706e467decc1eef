//! Perft: counts the leaf nodes of the legal move tree to a fixed depth.
//!
//! The count is pinned exactly by [`spec_perft`]; the executable function
//! saturates at the integer ceiling, far beyond any practical tree.
use vstd::prelude::*;

use crate::moves::Mv;
use crate::position::{legal_moves, play, pos_legal_moves, pos_play};
use crate::search::sat_add_u64;

verus! {

/// Number of leaf nodes at the given depth: one at depth zero, otherwise
/// the sum over the legal moves of the child counts one level shallower.
pub open spec fn spec_perft(p: shakmaty::Chess, depth: u32) -> int
    decreases depth, 1int, 0int,
{
    if depth == 0 {
        1
    } else {
        spec_perft_sum(p, pos_legal_moves(p), depth)
    }
}

/// Sum of the child counts for the moves of `ms` played on `p`.
pub open spec fn spec_perft_sum(p: shakmaty::Chess, ms: Seq<Mv>, depth: u32) -> int
    decreases depth, 0int, ms.len(),
{
    if depth == 0 || ms.len() == 0 {
        0
    } else {
        spec_perft(pos_play(p, ms[0]), (depth - 1) as u32) + spec_perft_sum(
            p,
            ms.drop_first(),
            depth,
        )
    }
}

proof fn lemma_perft_nonneg(p: shakmaty::Chess, depth: u32)
    ensures
        spec_perft(p, depth) >= 0,
    decreases depth, 1int, 0int,
{
    if depth > 0 {
        lemma_perft_sum_nonneg(p, pos_legal_moves(p), depth);
    }
}

proof fn lemma_perft_sum_nonneg(p: shakmaty::Chess, ms: Seq<Mv>, depth: u32)
    ensures
        spec_perft_sum(p, ms, depth) >= 0,
    decreases depth, 0int, ms.len(),
{
    if depth > 0 && ms.len() > 0 {
        lemma_perft_nonneg(pos_play(p, ms[0]), (depth - 1) as u32);
        lemma_perft_sum_nonneg(p, ms.drop_first(), depth);
    }
}

/// At depth one the tree has exactly one leaf per legal move.
proof fn lemma_perft_sum_depth1(p: shakmaty::Chess, ms: Seq<Mv>)
    ensures
        spec_perft_sum(p, ms, 1) == ms.len(),
    decreases ms.len(),
{
    if ms.len() > 0 {
        assert(spec_perft(pos_play(p, ms[0]), 0) == 1);
        lemma_perft_sum_depth1(p, ms.drop_first());
    }
}

/// Summing one more move adds that child's count at the end.
proof fn lemma_perft_take_step(p: shakmaty::Chess, ms: Seq<Mv>, depth: u32, i: int)
    requires
        depth >= 1,
        0 <= i < ms.len(),
    ensures
        spec_perft_sum(p, ms.take(i + 1), depth) == spec_perft_sum(p, ms.take(i), depth)
            + spec_perft(pos_play(p, ms[i]), (depth - 1) as u32),
    decreases i,
{
    if i == 0 {
        assert(ms.take(1).drop_first() =~= ms.take(0));
        assert(ms.take(1)[0] == ms[0]);
    } else {
        let t1 = ms.take(i + 1);
        let t0 = ms.take(i);
        assert(t1[0] == ms[0]);
        assert(t0[0] == ms[0]);
        assert(t1.drop_first() =~= ms.drop_first().take(i));
        assert(t0.drop_first() =~= ms.drop_first().take(i - 1));
        lemma_perft_take_step(p, ms.drop_first(), depth, i - 1);
        assert(ms.drop_first()[i - 1] == ms[i]);
        assert(ms.drop_first().take(i) =~= t1.drop_first());
        assert(ms.drop_first().take(i - 1) =~= t0.drop_first());
    }
}

/// Counts the legal move tree's leaves at `depth`, saturating at the
/// integer ceiling.
pub fn perft(pos: &shakmaty::Chess, depth: u32) -> (r: u64)
    ensures
        r == if spec_perft(*pos, depth) <= u64::MAX {
            spec_perft(*pos, depth)
        } else {
            u64::MAX as int
        },
    decreases depth,
{
    if depth == 0 {
        return 1;
    }

    let moves = legal_moves(pos);

    if depth == 1 {
        proof {
            lemma_perft_sum_depth1(*pos, pos_legal_moves(*pos));
        }
        return moves.len() as u64;
    }

    let mut nodes: u64 = 0;
    let n = moves.len();
    let mut i: usize = 0;
    while i < n
        invariant
            depth >= 2,
            n == moves@.len(),
            i <= n,
            moves@ == pos_legal_moves(*pos),
            forall|k: int| 0 <= k < moves@.len() ==> (#[trigger] moves@[k]).wf(),
            nodes == if spec_perft_sum(*pos, moves@.take(i as int), depth) <= u64::MAX {
                spec_perft_sum(*pos, moves@.take(i as int), depth)
            } else {
                u64::MAX as int
            },
        decreases n - i,
    {
        let mv = moves[i];
        let child = match play(pos, &mv) {
            Some(c) => c,
            None => {
                proof {
                    assert(pos_legal_moves(*pos).contains(moves@[i as int]));
                    assert(false);
                }
                return 0;
            },
        };
        let sub = perft(&child, depth - 1);
        proof {
            lemma_perft_take_step(*pos, moves@, depth, i as int);
            lemma_perft_sum_nonneg(*pos, moves@.take(i as int), depth);
            lemma_perft_nonneg(child, (depth - 1) as u32);
        }
        nodes = sat_add_u64(nodes, sub);
        i = i + 1;
    }
    proof {
        assert(moves@.take(n as int) =~= moves@);
    }
    nodes
}

} // verus!
