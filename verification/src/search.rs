//! Iterative-deepening negamax search with quiescence extension.
//!
//! The driver loops over depths, invoking a fail-soft alpha-beta negamax on
//! the root with the full window. Negamax handles terminal positions
//! (checkmate, repetition, the 50-move rule, stalemate, insufficient
//! material), extends the depth by one ply when in check, probes and fills
//! the transposition table, orders moves, and maintains the principal
//! variation; at depth zero it hands over to a fail-hard quiescence search
//! over captures only.
use vstd::prelude::*;
use vstd::seq_lib::group_to_multiset_ensures;

use crate::clock::{clock_now, elapsed_ms};
use crate::context::{spec_threefold, SearchContext};
use crate::eval::{evaluate, spec_evaluate};
use crate::moves::Mv;
use crate::position::{
    capture_moves, has_mate_in_one, is_check, is_checkmate, is_insufficient_material, is_mated,
    is_stalemate, legal_line, legal_moves, play, pos_halfmoves, pos_in_check,
    pos_insufficient_material, pos_legal_moves, pos_play, pos_zobrist, zobrist,
};
use crate::score::{score_in_range, DRAW_SCORE, MATE_SCORE, SCORE_INF};
use crate::time_manager::compute_time_limit;
use crate::tt::{Bound, TTEntry, TranspositionTable};

verus! {

broadcast use group_to_multiset_ensures;

/// Deepest ply the principal-variation table accounts for; the table has
/// one line per ply from 0 to this bound, and a node at the bound falls
/// through to quiescence instead of recursing further.
pub const MAX_PLY: usize = 64;

/// Hard bound on quiescence recursion; capture chains are far shorter.
pub const QPLY_MAX: usize = 192;

pub struct SearchStats {
    pub nodes: u64,
    pub depth_sum: u64,
    pub depth_samples: u64,
    pub seldepth: u32,
    pub duration_ms: u64,
}

impl SearchStats {
    pub open spec fn spec_default() -> SearchStats {
        SearchStats { nodes: 0, depth_sum: 0, depth_samples: 0, seldepth: 0, duration_ms: 0 }
    }

    /// All counters at zero.
    pub fn default() -> (r: SearchStats)
        ensures
            r == SearchStats::spec_default(),
    {
        SearchStats { nodes: 0, depth_sum: 0, depth_samples: 0, seldepth: 0, duration_ms: 0 }
    }
}

/// Adds without wrapping: the counters only ever grow, saturating at the
/// integer ceiling instead of overflowing.
pub fn sat_add_u64(a: u64, b: u64) -> (r: u64)
    ensures
        r == if a + b <= u64::MAX {
            a + b
        } else {
            u64::MAX as int
        },
{
    if a <= u64::MAX - b {
        a + b
    } else {
        u64::MAX
    }
}

/// What a transposition-table probe may answer at this node: the stored
/// score, when the entry is deep enough and its bound applies to the
/// current window.
pub open spec fn spec_tt_cut(
    tt: TranspositionTable,
    key: u64,
    depth: usize,
    alpha: i64,
    beta: i64,
) -> Option<i64> {
    match tt.spec_probe(key) {
        Some(e) => if e.depth >= depth {
            match e.bound {
                Bound::Exact => Some(e.score),
                Bound::Lower => if e.score >= beta {
                    Some(e.score)
                } else {
                    None
                },
                Bound::Upper => if e.score <= alpha {
                    Some(e.score)
                } else {
                    None
                },
            }
        } else {
            None
        },
        None => None,
    }
}

/// The bound a fail-soft result earns against its original window.
pub open spec fn spec_bound_of(best_score: i64, alpha: i64, beta: i64) -> Bound {
    if best_score <= alpha {
        Bound::Upper
    } else if best_score >= beta {
        Bound::Lower
    } else {
        Bound::Exact
    }
}

/// A quiescence node that answers from its own evaluation and capture
/// search: not a repetition or 50-move draw, and no table cut applies.
pub open spec fn q_evaluates(
    pre: SearchContext,
    p: shakmaty::Chess,
    alpha: i64,
    beta: i64,
) -> bool {
    &&& !spec_threefold(pre.repetition_stack@, pos_halfmoves(p))
    &&& pos_halfmoves(p) <= 100
    &&& spec_tt_cut(pre.tt, pos_zobrist(p), 0, alpha, beta) is None
}

/// The stand-pat value: the static evaluation, raised to `alpha` when it
/// falls below it.
pub open spec fn spec_raised_alpha(p: shakmaty::Chess, params: crate::params::Params, alpha: i64) -> int {
    let e = spec_evaluate(p, params);
    if e > alpha {
        e
    } else {
        alpha as int
    }
}

/// A negamax node that is decided by its move loop: moves exist, no
/// terminal or draw answer applies, no table cut applies, and depth
/// remains for a full-width search.
pub open spec fn negamax_searches(
    pre: SearchContext,
    p: shakmaty::Chess,
    depth: usize,
    ply: usize,
    alpha: i64,
    beta: i64,
) -> bool {
    &&& pos_legal_moves(p).len() > 0
    &&& !spec_threefold(pre.repetition_stack@, pos_halfmoves(p))
    &&& pos_halfmoves(p) <= 100
    &&& !pos_insufficient_material(p)
    &&& 1 <= depth
    &&& ply < MAX_PLY
    &&& spec_tt_cut(
        pre.tt,
        pos_zobrist(p),
        ((depth + if pos_in_check(p) {
            1int
        } else {
            0int
        }) as usize),
        alpha,
        beta,
    ) is None
}

/// Probes the table and answers with a score when the stored entry is deep
/// enough and its bound cuts the current window.
fn tt_probe(tt: &TranspositionTable, key: u64, depth: usize, alpha: i64, beta: i64) -> (r: Option<
    i64,
>)
    requires
        tt.wf(),
    ensures
        r == spec_tt_cut(*tt, key, depth, alpha, beta),
        r matches Some(s) ==> score_in_range(s),
{
    proof {
        let m = tt.mask as u64;
        assert(key & m <= m) by (bit_vector);
    }
    if let Some(entry) = tt.probe(key) {
        if entry.depth as usize >= depth {
            match entry.bound {
                Bound::Exact => {
                    return Some(entry.score);
                },
                Bound::Lower => if entry.score >= beta {
                    return Some(entry.score);
                },
                Bound::Upper => if entry.score <= alpha {
                    return Some(entry.score);
                },
            }
        }
    }
    None
}

/// Classifies the fail-soft result against the original window and stores
/// it, subject to the table's depth-preferred policy.
fn tt_store(
    tt: &mut TranspositionTable,
    key: u64,
    depth: usize,
    best_score: i64,
    alpha: i64,
    beta: i64,
    best_move: Option<Mv>,
)
    requires
        old(tt).wf(),
        depth <= 255,
        score_in_range(best_score),
    ensures
        final(tt).wf(),
        final(tt).mask == old(tt).mask,
        final(tt).table@.len() == old(tt).table@.len(),
        final(tt).table@ == old(tt).spec_store_slots(
            key,
            depth,
            best_score,
            spec_bound_of(best_score, alpha, beta),
            best_move,
        ),
{
    let bound = if best_score <= alpha {
        Bound::Upper
    } else if best_score >= beta {
        Bound::Lower
    } else {
        Bound::Exact
    };
    tt.store(key, depth, best_score, bound, best_move);
}

/// The best move remembered by the table for this key, if any.
fn tt_best_move(tt: &TranspositionTable, key: u64) -> (r: Option<Mv>)
    requires
        tt.wf(),
    ensures
        r == match tt.spec_probe(key) {
            Some(e) => e.best_move,
            None => None,
        },
{
    match tt.probe(key) {
        Some(e) => e.best_move,
        None => None,
    }
}

proof fn lemma_filter_is_subset(s: Seq<Mv>, pred: spec_fn(Mv) -> bool, x: Mv)
    requires
        s.filter(pred).contains(x),
    ensures
        s.contains(x),
        pred(x),
    decreases s.len(),
{
    reveal(Seq::filter);
    if s.len() == 0 {
    } else {
        let rest = s.drop_last();
        if pred(s.last()) && x == s.last() {
            assert(s[s.len() - 1] == x);
        } else {
            if pred(s.last()) {
                assert(s.filter(pred) == rest.filter(pred).push(s.last()));
                let i = choose|i: int|
                    0 <= i < s.filter(pred).len() && s.filter(pred)[i] == x;
                assert(rest.filter(pred).contains(x));
            } else {
                assert(s.filter(pred) == rest.filter(pred));
            }
            lemma_filter_is_subset(rest, pred, x);
            let j = choose|j: int| 0 <= j < rest.len() && rest[j] == x;
            assert(s[j] == x);
        }
    }
}

/// An owned copy of a line of moves.
fn copy_line(src: &Vec<Mv>) -> (r: Vec<Mv>)
    ensures
        r@ == src@,
{
    let mut out: Vec<Mv> = Vec::new();
    let n = src.len();
    let mut i: usize = 0;
    while i < n
        invariant
            n == src@.len(),
            i <= n,
            out@ == src@.take(i as int),
        decreases n - i,
    {
        proof {
            assert(src@.take(i + 1) =~= src@.take(i as int).push(src@[i as int]));
        }
        out.push(src[i]);
        i = i + 1;
    }
    proof {
        assert(src@.take(n as int) =~= src@);
    }
    out
}

/// Commits a new best move at `ply`: the line there becomes the move
/// followed by the child's line, and at the root the line also enters the
/// Multi-PV buffer.
fn update_pv(ply: usize, mv: Mv, best_score: i64, ctx: &mut SearchContext)
    requires
        old(ctx).wf(),
        ply < MAX_PLY,
    ensures
        final(ctx).wf(),
        final(ctx).pv.table@.len() == old(ctx).pv.table@.len(),
        final(ctx).pv.table@[ply as int]@ == seq![mv] + old(ctx).pv.table@[ply + 1]@,
        forall|i: int|
            0 <= i < old(ctx).pv.table@.len() && i != ply ==> final(ctx).pv.table@[i] == old(
                ctx,
            ).pv.table@[i],
        ply != 0 ==> final(ctx).multipv == old(ctx).multipv,
        final(ctx).multipv.capacity == old(ctx).multipv.capacity,
        ply == 0 ==> forall|j: int|
            0 <= j < final(ctx).multipv.lines@.len() ==> old(ctx).multipv.lines@.contains(
                #[trigger] final(ctx).multipv.lines@[j],
            ) || final(ctx).multipv.lines@[j].1@ == seq![mv] + old(ctx).pv.table@[1]@,
        ply == 0 ==> ({
            let before = old(ctx).multipv.lines@;
            let p = crate::pv::spec_insert_pos(before, best_score);
            let newlen = if before.len() + 1 <= old(ctx).multipv.capacity {
                before.len() + 1int
            } else {
                old(ctx).multipv.capacity as int
            };
            &&& final(ctx).multipv.lines@.len() == newlen
            &&& forall|j: int|
                0 <= j < newlen && j < p ==> #[trigger] final(ctx).multipv.lines@[j] == before[j]
            &&& (p < newlen ==> final(ctx).multipv.lines@[p].0 == best_score
                && final(ctx).multipv.lines@[p].1@ == seq![mv] + old(ctx).pv.table@[1]@)
            &&& forall|j: int|
                p < j < newlen ==> #[trigger] final(ctx).multipv.lines@[j] == before[j - 1]
        }),
        final(ctx).params == old(ctx).params,
        final(ctx).ordering == old(ctx).ordering,
        final(ctx).stats == old(ctx).stats,
        final(ctx).repetition_stack == old(ctx).repetition_stack,
        final(ctx).tt == old(ctx).tt,
{
    let child_line = copy_line(&ctx.pv.table[ply + 1]);
    ctx.pv.set_pv(ply, mv, &child_line);
    if ply == 0 {
        let line = copy_line(ctx.pv.pv_line());
        let ghost before = ctx.multipv.lines@;
        let ghost p = crate::pv::spec_insert_pos(before, best_score);
        ctx.multipv.insert(best_score, line);
        proof {
            crate::pv::lemma_insert_pos_bounds(before, best_score);
            let after = ctx.multipv.lines@;
            let inserted = before.insert(p, (best_score, line));
            assert forall|j: int| 0 <= j < after.len() implies before.contains(
                #[trigger] after[j],
            ) || after[j].1@ == seq![mv] + old(ctx).pv.table@[1]@ by {
                assert(after[j] == inserted[j]);
                if j < p {
                    assert(inserted[j] == before[j]);
                    assert(before.contains(before[j]));
                } else if j == p {
                    assert(inserted[j] == (best_score, line));
                } else {
                    assert(inserted[j] == before[j - 1]);
                    assert(before.contains(before[j - 1]));
                }
            }
        }
    }
}

/// Fail-soft alpha-beta negamax.
///
/// Terminal positions answer immediately: a checkmated side scores
/// `-MATE_SCORE + ply`, and repetition, the 50-move rule, stalemate and
/// insufficient material score zero, in that order of precedence. A node in
/// check searches one ply deeper. At depth zero, or at the bottom of the
/// principal-variation table, the node falls through to quiescence. The
/// repetition stack leaves exactly as it came, lines below `ply` are
/// untouched, and the line committed at `ply` is a legal continuation of
/// the position.
pub fn negamax(
    pos: &shakmaty::Chess,
    ctx: &mut SearchContext,
    depth: usize,
    ply: usize,
    alpha: i64,
    beta: i64,
) -> (r: i64)
    requires
        old(ctx).wf(),
        ply <= MAX_PLY,
        depth < 254,
        old(ctx).repetition_stack@.len() >= 1,
        old(ctx).repetition_stack@.last() == pos_zobrist(*pos),
        score_in_range(alpha),
        score_in_range(beta),
    ensures
        final(ctx).wf(),
        score_in_range(r),
        final(ctx).repetition_stack@ == old(ctx).repetition_stack@,
        final(ctx).pv.table@.len() == old(ctx).pv.table@.len(),
        forall|i: int|
            0 <= i < ply ==> final(ctx).pv.table@[i] == old(ctx).pv.table@[i],
        legal_line(*pos, final(ctx).pv.table@[ply as int]@),
        ply != 0 ==> final(ctx).multipv == old(ctx).multipv,
        ply == 0 ==> forall|j: int|
            0 <= j < final(ctx).multipv.lines@.len() ==> old(ctx).multipv.lines@.contains(
                #[trigger] final(ctx).multipv.lines@[j],
            ) || (final(ctx).multipv.lines@[j].1@.len() >= 1 && pos_legal_moves(*pos).contains(
                final(ctx).multipv.lines@[j].1@[0],
            )),
        final(ctx).multipv.capacity == old(ctx).multipv.capacity,
        final(ctx).params == old(ctx).params,
        final(ctx).ordering == old(ctx).ordering,
        final(ctx).tt.mask == old(ctx).tt.mask,
        final(ctx).tt.table@.len() == old(ctx).tt.table@.len(),
        final(ctx).stats.nodes >= old(ctx).stats.nodes,
        final(ctx).stats.seldepth >= old(ctx).stats.seldepth,
        final(ctx).stats.depth_sum >= old(ctx).stats.depth_sum,
        final(ctx).stats.depth_samples >= old(ctx).stats.depth_samples,
        (pos_in_check(*pos) && pos_legal_moves(*pos).len() == 0) ==> r == -MATE_SCORE + ply,
        (!(pos_in_check(*pos) && pos_legal_moves(*pos).len() == 0) && (spec_threefold(
            old(ctx).repetition_stack@,
            pos_halfmoves(*pos),
        ) || pos_halfmoves(*pos) > 100)) ==> r == DRAW_SCORE,
        (!(pos_in_check(*pos) && pos_legal_moves(*pos).len() == 0) && !spec_threefold(
            old(ctx).repetition_stack@,
            pos_halfmoves(*pos),
        ) && pos_halfmoves(*pos) <= 100 && ((!pos_in_check(*pos) && pos_legal_moves(*pos).len()
            == 0) || pos_insufficient_material(*pos))) ==> r == DRAW_SCORE,
        (beta == SCORE_INF && has_mate_in_one(*pos) && negamax_searches(
            *old(ctx),
            *pos,
            depth,
            ply,
            alpha,
            beta,
        )) ==> r >= MATE_SCORE - ply - 1,
        (negamax_searches(*old(ctx), *pos, depth, ply, alpha, beta) && r > -SCORE_INF)
            ==> final(ctx).pv.table@[ply as int]@.len() >= 1,
        (negamax_searches(*old(ctx), *pos, depth, ply, alpha, beta) && ply == 0
            && old(ctx).multipv.lines@.len() == 0 && old(ctx).multipv.capacity >= 1 && r
            > -SCORE_INF) ==> final(ctx).multipv.lines@.len() >= 1
            && final(ctx).multipv.lines@[0].0 == r,
    decreases QPLY_MAX - ply, 1int,
{
    ctx.stats.nodes = sat_add_u64(ctx.stats.nodes, 1);
    if ply as u32 > ctx.stats.seldepth {
        ctx.stats.seldepth = ply as u32;
    }
    ctx.stats.depth_sum = sat_add_u64(ctx.stats.depth_sum, ply as u64);
    ctx.stats.depth_samples = sat_add_u64(ctx.stats.depth_samples, 1);

    ctx.pv.clear_from(ply);

    if is_checkmate(pos) {
        return -MATE_SCORE + ply as i64;
    }
    if ctx.is_threefold(pos) || ctx.is_50_moves(pos) {
        return DRAW_SCORE;
    }
    if is_stalemate(pos) || is_insufficient_material(pos) {
        return DRAW_SCORE;
    }

    let mut depth = depth;
    if is_check(pos) {
        depth = depth + 1;
    }

    if depth == 0 || ply == MAX_PLY {
        return quiescence(pos, ctx, ply, alpha, beta);
    }

    let key = zobrist(pos);
    if let Some(score) = tt_probe(&ctx.tt, key, depth, alpha, beta) {
        return score;
    }

    let original_alpha = alpha;
    let mut alpha = alpha;
    let mut best_score: i64 = -SCORE_INF;
    let mut best_move: Option<Mv> = None;

    let mut moves = legal_moves(pos);
    let pv_move: Option<Mv> = if ctx.pv.table[ply].len() > 0 {
        Some(ctx.pv.table[ply][0])
    } else {
        None
    };
    let tt_move = tt_best_move(&ctx.tt, key);
    ctx.ordering.order_moves(pv_move, tt_move, &mut moves);

    let n = moves.len();
    let mut i: usize = 0;
    while i < n
        invariant
            ctx.wf(),
            ply < MAX_PLY,
            1 <= depth < 255,
            n == moves@.len(),
            i <= n,
            moves@.to_multiset() == pos_legal_moves(*pos).to_multiset(),
            forall|k: int| 0 <= k < moves@.len() ==> (#[trigger] moves@[k]).wf(),
            ctx.repetition_stack@ == old(ctx).repetition_stack@,
            ctx.repetition_stack@.len() >= 1,
            ctx.repetition_stack@.last() == pos_zobrist(*pos),
            ctx.pv.table@.len() == old(ctx).pv.table@.len(),
            forall|k: int| 0 <= k < ply ==> ctx.pv.table@[k] == old(ctx).pv.table@[k],
            legal_line(*pos, ctx.pv.table@[ply as int]@),
            ply != 0 ==> ctx.multipv == old(ctx).multipv,
            ply == 0 ==> forall|j: int|
                0 <= j < ctx.multipv.lines@.len() ==> old(ctx).multipv.lines@.contains(
                    #[trigger] ctx.multipv.lines@[j],
                ) || (ctx.multipv.lines@[j].1@.len() >= 1 && pos_legal_moves(*pos).contains(
                    ctx.multipv.lines@[j].1@[0],
                )),
            ctx.multipv.capacity == old(ctx).multipv.capacity,
            ctx.params == old(ctx).params,
            ctx.ordering == old(ctx).ordering,
            ctx.tt.mask == old(ctx).tt.mask,
            ctx.tt.table@.len() == old(ctx).tt.table@.len(),
            ctx.stats.nodes >= old(ctx).stats.nodes,
            ctx.stats.seldepth >= old(ctx).stats.seldepth,
            ctx.stats.depth_sum >= old(ctx).stats.depth_sum,
            ctx.stats.depth_samples >= old(ctx).stats.depth_samples,
            score_in_range(alpha),
            score_in_range(beta),
            score_in_range(best_score),
            alpha >= original_alpha,
            !(pos_in_check(*pos) && pos_legal_moves(*pos).len() == 0),
            !spec_threefold(old(ctx).repetition_stack@, pos_halfmoves(*pos)),
            pos_halfmoves(*pos) <= 100,
            !(!pos_in_check(*pos) && pos_legal_moves(*pos).len() == 0),
            !pos_insufficient_material(*pos),
            forall|k: int|
                0 <= k < i && is_mated(pos_play(*pos, #[trigger] moves@[k])) ==> best_score
                    >= MATE_SCORE - ply - 1,
            best_score > -SCORE_INF ==> ctx.pv.table@[ply as int]@.len() >= 1,
            (ply == 0 && old(ctx).multipv.lines@.len() == 0 && old(ctx).multipv.capacity >= 1)
                ==> ({
                &&& forall|j: int|
                    0 <= j < ctx.multipv.lines@.len() ==> (#[trigger] ctx.multipv.lines@[j]).0
                        <= best_score
                &&& (best_score > -SCORE_INF ==> ctx.multipv.lines@.len() >= 1
                    && ctx.multipv.lines@[0].0 == best_score)
                &&& (best_score == -SCORE_INF ==> ctx.multipv.lines@.len() == 0)
            }),
        ensures
            i == n || best_score >= beta,
        decreases n - i,
    {
        let mv = moves[i];
        proof {
            assert(moves@.contains(moves@[i as int]));
            assert(moves@.to_multiset().count(mv) > 0);
            assert(pos_legal_moves(*pos).contains(mv));
        }
        let child = match play(pos, &mv) {
            Some(c) => c,
            None => {
                proof {
                    assert(false);
                }
                return DRAW_SCORE;
            },
        };
        let child_hash = zobrist(&child);
        ctx.increase_history(child_hash);
        proof {
            assert(ctx.repetition_stack@.last() == pos_zobrist(child));
        }
        let rec = negamax(&child, ctx, depth - 1, ply + 1, -beta, -alpha);
        let score = -rec;
        ctx.decrease_history();
        proof {
            assert(ctx.repetition_stack@ =~= old(ctx).repetition_stack@);
            assert(is_mated(child) ==> score == MATE_SCORE - ply - 1);
        }

        if score > best_score {
            best_score = score;
            best_move = Some(mv);
            let ghost child_line = ctx.pv.table@[ply + 1]@;
            update_pv(ply, mv, best_score, ctx);
            proof {
                let line = ctx.pv.table@[ply as int]@;
                assert(line == seq![mv] + child_line);
                assert(line[0] == mv);
                assert(line.drop_first() =~= child_line);
                assert(legal_line(pos_play(*pos, mv), child_line));
            }
        }

        if best_score >= beta {
            break ;
        }
        if best_score > alpha {
            alpha = best_score;
        }
        i = i + 1;
    }

    proof {
        if beta == SCORE_INF && has_mate_in_one(*pos) && i == n {
            let w = choose|w: int|
                0 <= w < pos_legal_moves(*pos).len() && is_mated(
                    pos_play(*pos, pos_legal_moves(*pos)[w]),
                );
            let m = pos_legal_moves(*pos)[w];
            assert(pos_legal_moves(*pos).contains(m));
            assert(moves@.to_multiset().count(m) > 0);
            assert(moves@.contains(m));
            let k = choose|k: int| 0 <= k < moves@.len() && moves@[k] == m;
            assert(is_mated(pos_play(*pos, moves@[k])));
        }
    }
    tt_store(&mut ctx.tt, key, depth, best_score, original_alpha, beta, best_move);
    best_score
}

/// Fail-hard quiescence search over captures.
///
/// The stand-pat evaluation bounds the score from below; only captures are
/// searched, and the window bound is returned on a cutoff. Repetition and
/// 50-move draws still score zero here. The principal variation, Multi-PV
/// buffer and repetition stack leave exactly as they came.
pub fn quiescence(
    pos: &shakmaty::Chess,
    ctx: &mut SearchContext,
    ply: usize,
    alpha: i64,
    beta: i64,
) -> (r: i64)
    requires
        old(ctx).wf(),
        ply <= QPLY_MAX,
        old(ctx).repetition_stack@.len() >= 1,
        old(ctx).repetition_stack@.last() == pos_zobrist(*pos),
        score_in_range(alpha),
        score_in_range(beta),
    ensures
        final(ctx).wf(),
        score_in_range(r),
        final(ctx).repetition_stack@ == old(ctx).repetition_stack@,
        final(ctx).pv == old(ctx).pv,
        final(ctx).multipv == old(ctx).multipv,
        final(ctx).params == old(ctx).params,
        final(ctx).ordering == old(ctx).ordering,
        final(ctx).tt.mask == old(ctx).tt.mask,
        final(ctx).tt.table@.len() == old(ctx).tt.table@.len(),
        final(ctx).stats.nodes >= old(ctx).stats.nodes,
        final(ctx).stats.seldepth >= old(ctx).stats.seldepth,
        final(ctx).stats.depth_sum == old(ctx).stats.depth_sum,
        final(ctx).stats.depth_samples == old(ctx).stats.depth_samples,
        (spec_threefold(old(ctx).repetition_stack@, pos_halfmoves(*pos)) || pos_halfmoves(*pos)
            > 100) ==> r == DRAW_SCORE,
        (q_evaluates(*old(ctx), *pos, alpha, beta) && spec_evaluate(*pos, old(ctx).params)
            >= beta) ==> r == beta,
        (q_evaluates(*old(ctx), *pos, alpha, beta) && alpha <= beta) ==> ({
            let raised = spec_raised_alpha(*pos, old(ctx).params, alpha);
            (if raised < beta {
                raised
            } else {
                beta as int
            }) <= r <= beta
        }),
        (q_evaluates(*old(ctx), *pos, alpha, beta) && alpha < beta && r < beta) ==> ({
            let raised = spec_raised_alpha(*pos, old(ctx).params, alpha);
            final(ctx).tt.table@[old(ctx).tt.spec_slot(pos_zobrist(*pos))] matches Some(en) && (
            en.depth > 0 || en == (TTEntry {
                key: pos_zobrist(*pos),
                depth: 0,
                score: r,
                bound: spec_bound_of(r, raised as i64, beta),
                best_move: None,
            }))
        }),
    decreases QPLY_MAX - ply, 0int,
{
    ctx.stats.nodes = sat_add_u64(ctx.stats.nodes, 1);
    if ply as u32 > ctx.stats.seldepth {
        ctx.stats.seldepth = ply as u32;
    }

    if ctx.is_threefold(pos) || ctx.is_50_moves(pos) {
        return DRAW_SCORE;
    }

    let key = zobrist(pos);
    if let Some(score) = tt_probe(&ctx.tt, key, 0, alpha, beta) {
        return score;
    }

    let stand_pat = evaluate(pos, &ctx.params);
    if stand_pat >= beta {
        return beta;
    }
    let ghost alpha0 = alpha;
    let mut alpha = alpha;
    if stand_pat > alpha {
        alpha = stand_pat;
    }
    let original_alpha = alpha;
    proof {
        assert(original_alpha == spec_raised_alpha(*pos, old(ctx).params, alpha0));
    }

    if ply < QPLY_MAX {
        let mut moves = capture_moves(pos);
        ctx.ordering.order_captures(&mut moves);

        let n = moves.len();
        let mut i: usize = 0;
        while i < n
            invariant
                ctx.wf(),
                ply < QPLY_MAX,
                n == moves@.len(),
                i <= n,
                moves@.to_multiset() == pos_legal_moves(*pos).filter(
                    |m: Mv| m.spec_is_capture(),
                ).to_multiset(),
                forall|k: int| 0 <= k < moves@.len() ==> (#[trigger] moves@[k]).wf(),
                ctx.repetition_stack@ == old(ctx).repetition_stack@,
                ctx.repetition_stack@.len() >= 1,
                ctx.repetition_stack@.last() == pos_zobrist(*pos),
                ctx.pv == old(ctx).pv,
                ctx.multipv == old(ctx).multipv,
                ctx.params == old(ctx).params,
                ctx.ordering == old(ctx).ordering,
                ctx.tt.mask == old(ctx).tt.mask,
                ctx.tt.table@.len() == old(ctx).tt.table@.len(),
                ctx.stats.nodes >= old(ctx).stats.nodes,
                ctx.stats.seldepth >= old(ctx).stats.seldepth,
                ctx.stats.depth_sum == old(ctx).stats.depth_sum,
                ctx.stats.depth_samples == old(ctx).stats.depth_samples,
                score_in_range(alpha),
                score_in_range(beta),
                alpha >= original_alpha,
                original_alpha == spec_raised_alpha(*pos, old(ctx).params, alpha0),
                alpha0 <= beta ==> alpha <= beta,
                alpha0 < beta ==> alpha < beta,
                !spec_threefold(old(ctx).repetition_stack@, pos_halfmoves(*pos)),
                pos_halfmoves(*pos) <= 100,
            decreases n - i,
        {
            let mv = moves[i];
            proof {
                assert(moves@.contains(moves@[i as int]));
                assert(moves@.to_multiset().count(mv) > 0);
                let filtered = pos_legal_moves(*pos).filter(|m: Mv| m.spec_is_capture());
                assert(filtered.contains(mv));
                lemma_filter_is_subset(pos_legal_moves(*pos), |m: Mv| m.spec_is_capture(), mv);
            }
            let child = match play(pos, &mv) {
                Some(c) => c,
                None => {
                    proof {
                        assert(false);
                    }
                    return DRAW_SCORE;
                },
            };
            let child_hash = zobrist(&child);
            ctx.increase_history(child_hash);
            let rec = quiescence(&child, ctx, ply + 1, -beta, -alpha);
            let score = -rec;
            ctx.decrease_history();
            proof {
                assert(ctx.repetition_stack@ =~= old(ctx).repetition_stack@);
            }

            if score >= beta {
                return beta;
            }
            if score > alpha {
                alpha = score;
            }
            i = i + 1;
        }
    }

    let ghost prestore = ctx.tt;
    tt_store(&mut ctx.tt, key, 0, alpha, original_alpha, beta, None);
    proof {
        let m = prestore.mask as u64;
        assert(key & m <= m) by (bit_vector);
        assert(prestore.spec_slot(key) == old(ctx).tt.spec_slot(key));
    }
    alpha
}

/// The iterative-deepening driver: searches depths 1 up to `max_depth`,
/// stopping between iterations once the allocated time is spent. The first
/// iteration always runs, so a best line exists whenever the position has
/// one. The result is the last completed iteration's score, and the root
/// line of the principal-variation table is a legal continuation of the
/// position.
pub fn search(
    pos: &shakmaty::Chess,
    ctx: &mut SearchContext,
    max_depth: usize,
    time_remaining: Option<u64>,
) -> (r: i64)
    requires
        old(ctx).wf(),
        max_depth < 254,
        old(ctx).repetition_stack@.len() >= 1,
        old(ctx).repetition_stack@.last() == pos_zobrist(*pos),
    ensures
        final(ctx).wf(),
        score_in_range(r),
        final(ctx).repetition_stack@ == old(ctx).repetition_stack@,
        final(ctx).multipv.capacity == old(ctx).multipv.capacity,
        final(ctx).params == old(ctx).params,
        final(ctx).ordering == old(ctx).ordering,
        final(ctx).stats.nodes >= old(ctx).stats.nodes,
        max_depth >= 1 ==> legal_line(*pos, final(ctx).pv.table@[0]@),
        max_depth >= 1 ==> forall|j: int|
            0 <= j < final(ctx).multipv.lines@.len()
                ==> (#[trigger] final(ctx).multipv.lines@[j]).1@.len() >= 1
                && pos_legal_moves(*pos).contains(final(ctx).multipv.lines@[j].1@[0]),
        max_depth >= 1 && pos_in_check(*pos) && pos_legal_moves(*pos).len() == 0 ==> r
            == -MATE_SCORE,
        max_depth >= 1 && !(pos_in_check(*pos) && pos_legal_moves(*pos).len() == 0) && (
        spec_threefold(old(ctx).repetition_stack@, pos_halfmoves(*pos)) || pos_halfmoves(*pos)
            > 100) ==> r == DRAW_SCORE,
        max_depth >= 1 && !(pos_in_check(*pos) && pos_legal_moves(*pos).len() == 0)
            && !spec_threefold(old(ctx).repetition_stack@, pos_halfmoves(*pos)) && pos_halfmoves(
            *pos,
        ) <= 100 && ((!pos_in_check(*pos) && pos_legal_moves(*pos).len() == 0)
            || pos_insufficient_material(*pos)) ==> r == DRAW_SCORE,
{
    let start = clock_now();
    let total_time = compute_time_limit(pos, time_remaining, Some(0));

    let mut best_score: i64 = -SCORE_INF;
    if max_depth >= 1 {
        ctx.pv.clear_from(0);
        ctx.multipv.clear();
        best_score = negamax(pos, ctx, 1, 0, -SCORE_INF, SCORE_INF);
        let mut depth: usize = 2;
        while depth <= max_depth
            invariant
                ctx.wf(),
                2 <= depth <= max_depth + 1,
                max_depth < 254,
                ctx.repetition_stack@ == old(ctx).repetition_stack@,
                ctx.repetition_stack@.len() >= 1,
                ctx.repetition_stack@.last() == pos_zobrist(*pos),
                ctx.multipv.capacity == old(ctx).multipv.capacity,
                ctx.params == old(ctx).params,
                ctx.ordering == old(ctx).ordering,
                ctx.stats.nodes >= old(ctx).stats.nodes,
                score_in_range(best_score),
                legal_line(*pos, ctx.pv.table@[0]@),
                forall|j: int|
                    0 <= j < ctx.multipv.lines@.len() ==> (#[trigger] ctx.multipv.lines@[j]).1@.len()
                        >= 1 && pos_legal_moves(*pos).contains(ctx.multipv.lines@[j].1@[0]),
                pos_in_check(*pos) && pos_legal_moves(*pos).len() == 0 ==> best_score
                    == -MATE_SCORE,
                !(pos_in_check(*pos) && pos_legal_moves(*pos).len() == 0) && (spec_threefold(
                    old(ctx).repetition_stack@,
                    pos_halfmoves(*pos),
                ) || pos_halfmoves(*pos) > 100) ==> best_score == DRAW_SCORE,
                !(pos_in_check(*pos) && pos_legal_moves(*pos).len() == 0) && !spec_threefold(
                    old(ctx).repetition_stack@,
                    pos_halfmoves(*pos),
                ) && pos_halfmoves(*pos) <= 100 && ((!pos_in_check(*pos) && pos_legal_moves(
                    *pos,
                ).len() == 0) || pos_insufficient_material(*pos)) ==> best_score == DRAW_SCORE,
            decreases max_depth + 1 - depth,
        {
            if elapsed_ms(&start) > total_time {
                break ;
            }
            ctx.pv.clear_from(0);
            ctx.multipv.clear();
            let score = negamax(pos, ctx, depth, 0, -SCORE_INF, SCORE_INF);
            best_score = score;
            depth = depth + 1;
        }
    }

    ctx.stats.duration_ms = elapsed_ms(&start);
    best_score
}

} // verus!
