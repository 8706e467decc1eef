//! Static evaluation: material, mobility and tempo, from the side to move's
//! point of view.
//!
//! The evaluation is a pure function of the position's piece placement
//! bitboards and the attack tables, both named in [`crate::position`]. Its
//! exact value is pinned by [`spec_evaluate`], and under well-formed
//! parameters it stays within [`crate::score::EVAL_BOUND`].
use vstd::prelude::*;

use crate::params::Params;
use crate::position::{
    bishop_attack_bb, bishop_attacks, color_bb, knight_attack_bb, knight_attacks, piece_bb,
    pos_color_bb, pos_piece_bb, pos_white_to_move, rook_attack_bb, rook_attacks, white_to_move,
};
use crate::score::EVAL_BOUND;

verus! {

/// Number of set bits among the lowest `n` bits of `b`.
pub open spec fn bits_below(b: u64, n: u64) -> int
    decreases n,
{
    if n == 0 {
        0
    } else {
        bits_below(b, (n - 1) as u64) + ((b >> ((n - 1) as u64)) & 1)
    }
}

/// Number of set bits of a 64-bit word.
pub open spec fn pop64(b: u64) -> int {
    bits_below(b, 64)
}

/// Counts the set bits of `b`.
pub fn popcount(b: u64) -> (c: u64)
    ensures
        c == pop64(b),
        c <= 64,
{
    let mut c: u64 = 0;
    let mut i: u64 = 0;
    while i < 64
        invariant
            i <= 64,
            c <= i,
            c == bits_below(b, i),
        decreases 64 - i,
    {
        proof {
            assert((b >> i) & 1 <= 1) by (bit_vector);
        }
        c = c + ((b >> i) & 1);
        i = i + 1;
    }
    c
}

/// Squares occupied by either side.
pub open spec fn spec_occupied(p: shakmaty::Chess) -> u64 {
    pos_color_bb(p, true) | pos_color_bb(p, false)
}

/// Attack bitboard of a piece of role `role` on `sq` under occupancy `occ`:
/// knights use the knight table, bishops and rooks their sliding attacks,
/// queens the union of both.
pub open spec fn spec_attack_bb(role: u8, sq: u8, occ: u64) -> u64 {
    if role == 2 {
        knight_attack_bb(sq)
    } else if role == 3 {
        bishop_attack_bb(sq, occ)
    } else if role == 4 {
        rook_attack_bb(sq, occ)
    } else {
        bishop_attack_bb(sq, occ) | rook_attack_bb(sq, occ)
    }
}

/// Mobility contribution of one square: if the given side has a piece of
/// `role` there, the number of its attack squares not occupied by its own
/// pieces, weighted by the role's mobility bonus.
pub open spec fn mob_sq_term(p: shakmaty::Chess, params: Params, white: bool, role: u8, sq: u64) -> int {
    if (pos_piece_bb(p, white, role) >> sq) & 1 == 1 {
        pop64(spec_attack_bb(role, sq as u8, spec_occupied(p)) & !pos_color_bb(p, white))
            * params.mobility_bonus@[role - 1]
    } else {
        0
    }
}

/// Mobility of one role, summed over the squares below `n`.
pub open spec fn mob_role_upto(p: shakmaty::Chess, params: Params, white: bool, role: u8, n: u64) -> int
    decreases n,
{
    if n == 0 {
        0
    } else {
        mob_role_upto(p, params, white, role, (n - 1) as u64) + mob_sq_term(
            p,
            params,
            white,
            role,
            (n - 1) as u64,
        )
    }
}

/// Mobility score of one side: knights, bishops, rooks and queens.
pub open spec fn spec_mobility(p: shakmaty::Chess, params: Params, white: bool) -> int {
    mob_role_upto(p, params, white, 2, 64) + mob_role_upto(p, params, white, 3, 64)
        + mob_role_upto(p, params, white, 4, 64) + mob_role_upto(p, params, white, 5, 64)
}

/// Material contribution of the roles below `n` (1-based): piece value times
/// material weight times the white-minus-black piece count difference.
pub open spec fn material_upto(p: shakmaty::Chess, params: Params, n: u8) -> int
    decreases n,
{
    if n == 0 {
        0
    } else {
        material_upto(p, params, (n - 1) as u8) + params.piece_values@[n - 1]
            * params.material_weight * (pop64(pos_piece_bb(p, true, n)) - pop64(
            pos_piece_bb(p, false, n),
        ))
    }
}

/// The full evaluation from White's point of view: material plus the
/// mobility difference plus the tempo bonus for the side to move.
pub open spec fn spec_eval_white(p: shakmaty::Chess, params: Params) -> int {
    material_upto(p, params, 6) + spec_mobility(p, params, true) - spec_mobility(p, params, false)
        + if pos_white_to_move(p) {
        params.tempo_bonus as int
    } else {
        -params.tempo_bonus as int
    }
}

/// The evaluation from the side to move's point of view.
pub open spec fn spec_evaluate(p: shakmaty::Chess, params: Params) -> int {
    if pos_white_to_move(p) {
        spec_eval_white(p, params)
    } else {
        -spec_eval_white(p, params)
    }
}

proof fn lemma_material_congruent(
    p1: shakmaty::Chess,
    p2: shakmaty::Chess,
    params: Params,
    n: u8,
)
    requires
        forall|w: bool, role: u8|
            1 <= role <= 6 ==> #[trigger] pos_piece_bb(p1, w, role) == pos_piece_bb(p2, w, role),
        n <= 6,
    ensures
        material_upto(p1, params, n) == material_upto(p2, params, n),
    decreases n,
{
    if n > 0 {
        lemma_material_congruent(p1, p2, params, (n - 1) as u8);
    }
}

proof fn lemma_mobility_congruent(
    p1: shakmaty::Chess,
    p2: shakmaty::Chess,
    params: Params,
    white: bool,
    role: u8,
    n: u64,
)
    requires
        forall|w: bool, r: u8|
            1 <= r <= 6 ==> #[trigger] pos_piece_bb(p1, w, r) == pos_piece_bb(p2, w, r),
        forall|w: bool| #[trigger] pos_color_bb(p1, w) == pos_color_bb(p2, w),
        1 <= role <= 6,
    ensures
        mob_role_upto(p1, params, white, role, n) == mob_role_upto(p2, params, white, role, n),
    decreases n,
{
    if n > 0 {
        lemma_mobility_congruent(p1, p2, params, white, role, (n - 1) as u64);
    }
}

/// The evaluation is colour-symmetric up to tempo: two positions with the
/// same piece placement and opposite side to move evaluate, each from its
/// own mover's point of view, to values summing to twice the tempo bonus.
pub proof fn lemma_eval_opposite_mover(p1: shakmaty::Chess, p2: shakmaty::Chess, params: Params)
    requires
        forall|w: bool, role: u8|
            1 <= role <= 6 ==> #[trigger] pos_piece_bb(p1, w, role) == pos_piece_bb(p2, w, role),
        forall|w: bool| #[trigger] pos_color_bb(p1, w) == pos_color_bb(p2, w),
        pos_white_to_move(p1) == !pos_white_to_move(p2),
    ensures
        spec_evaluate(p1, params) + spec_evaluate(p2, params) == 2 * params.tempo_bonus,
{
    lemma_material_congruent(p1, p2, params, 6);
    lemma_mobility_congruent(p1, p2, params, true, 2, 64);
    lemma_mobility_congruent(p1, p2, params, true, 3, 64);
    lemma_mobility_congruent(p1, p2, params, true, 4, 64);
    lemma_mobility_congruent(p1, p2, params, true, 5, 64);
    lemma_mobility_congruent(p1, p2, params, false, 2, 64);
    lemma_mobility_congruent(p1, p2, params, false, 3, 64);
    lemma_mobility_congruent(p1, p2, params, false, 4, 64);
    lemma_mobility_congruent(p1, p2, params, false, 5, 64);
}

/// Mobility of one side for one role, over all squares.
fn mobility_role(
    p: &shakmaty::Chess,
    params: &Params,
    white: bool,
    role: u8,
    own: u64,
    occ: u64,
) -> (s: i64)
    requires
        params.wf(),
        2 <= role <= 5,
        own == pos_color_bb(*p, white),
        occ == spec_occupied(*p),
    ensures
        s == mob_role_upto(*p, *params, white, role, 64),
        -64 * 64_000 <= s <= 64 * 64_000,
{
    let bb = piece_bb(p, white, role);
    let bonus = params.mobility_bonus[(role - 1) as usize];
    let mut s: i64 = 0;
    let mut sq: u64 = 0;
    while sq < 64
        invariant
            params.wf(),
            2 <= role <= 5,
            bb == pos_piece_bb(*p, white, role),
            bonus == params.mobility_bonus@[role - 1],
            own == pos_color_bb(*p, white),
            occ == spec_occupied(*p),
            sq <= 64,
            s == mob_role_upto(*p, *params, white, role, sq),
            -(sq as int) * 64_000 <= s <= (sq as int) * 64_000,
        decreases 64 - sq,
    {
        if (bb >> sq) & 1 == 1 {
            let att = if role == 2 {
                knight_attacks(sq as u8)
            } else if role == 3 {
                bishop_attacks(sq as u8, occ)
            } else if role == 4 {
                rook_attacks(sq as u8, occ)
            } else {
                bishop_attacks(sq as u8, occ) | rook_attacks(sq as u8, occ)
            };
            let reach = att & !own;
            let cnt = popcount(reach);
            proof {
                assert(-64_000 <= pop64(reach) * bonus <= 64_000) by (nonlinear_arith)
                    requires
                        0 <= pop64(reach) <= 64,
                        -1_000 <= bonus <= 1_000,
                ;
            }
            s = s + (cnt as i64) * bonus;
        }
        sq = sq + 1;
    }
    s
}

/// Mobility score of one side, summed over knights, bishops, rooks and
/// queens.
fn mobility_score(p: &shakmaty::Chess, params: &Params, white: bool) -> (s: i64)
    requires
        params.wf(),
    ensures
        s == spec_mobility(*p, *params, white),
        -4 * 64 * 64_000 <= s <= 4 * 64 * 64_000,
{
    let own = color_bb(p, white);
    let other = color_bb(p, !white);
    let occ = own | other;
    proof {
        let a = pos_color_bb(*p, true);
        let b = pos_color_bb(*p, false);
        assert(a | b == b | a) by (bit_vector);
    }
    let mut s: i64 = mobility_role(p, params, white, 2, own, occ);
    s = s + mobility_role(p, params, white, 3, own, occ);
    s = s + mobility_role(p, params, white, 4, own, occ);
    s = s + mobility_role(p, params, white, 5, own, occ);
    s
}

/// Evaluates the position for the side to move: material weighted by the
/// parameters, plus the mobility difference, plus the tempo bonus, negated
/// when Black is to move.
pub fn evaluate(p: &shakmaty::Chess, params: &Params) -> (s: i64)
    requires
        params.wf(),
    ensures
        s == spec_evaluate(*p, *params),
        -EVAL_BOUND <= s <= EVAL_BOUND,
{
    let mut material: i64 = 0;
    let mut role: u8 = 1;
    while role <= 6
        invariant
            params.wf(),
            1 <= role <= 7,
            material == material_upto(*p, *params, (role - 1) as u8),
            -(role - 1) * 640_000_000 <= material <= (role - 1) * 640_000_000,
        decreases 7 - role,
    {
        let wc = popcount(piece_bb(p, true, role));
        let bc = popcount(piece_bb(p, false, role));
        proof {
            assert(0 <= params.piece_values@[role - 1] * params.material_weight <= 10_000_000)
                by (nonlinear_arith)
                requires
                    0 <= params.piece_values@[role - 1] <= 10_000,
                    0 <= params.material_weight <= 1_000,
            ;
            assert(-640_000_000 <= (params.piece_values@[role - 1] * params.material_weight) * (
            pop64(pos_piece_bb(*p, true, role)) - pop64(pos_piece_bb(*p, false, role)))
                <= 640_000_000) by (nonlinear_arith)
                requires
                    0 <= params.piece_values@[role - 1] * params.material_weight <= 10_000_000,
                    0 <= pop64(pos_piece_bb(*p, true, role)) <= 64,
                    0 <= pop64(pos_piece_bb(*p, false, role)) <= 64,
            ;
        }
        let val = params.piece_values[(role - 1) as usize] * params.material_weight;
        material = material + val * ((wc as i64) - (bc as i64));
        role = role + 1;
    }
    let white_mob = mobility_score(p, params, true);
    let black_mob = mobility_score(p, params, false);
    let tempo = if white_to_move(p) {
        params.tempo_bonus
    } else {
        -params.tempo_bonus
    };
    let score = material + (white_mob - black_mob) + tempo;
    if white_to_move(p) {
        score
    } else {
        -score
    }
}

} // verus!
