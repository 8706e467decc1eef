//! Evaluation parameters, immutable during a search.
//!
//! All weights are integers in centipawn scale. `piece_values` and
//! `mobility_bonus` are indexed by role number minus one (pawn, knight,
//! bishop, rook, queen, king).
use vstd::prelude::*;

verus! {

#[derive(Clone, Copy)]
pub struct Params {
    pub piece_values: [i64; 6],
    pub material_weight: i64,
    pub mobility_bonus: [i64; 6],
    pub tempo_bonus: i64,
}

impl Params {
    /// Bounds on the weights under which every static evaluation stays
    /// within [`crate::score::EVAL_BOUND`].
    pub open spec fn wf(self) -> bool {
        &&& forall|i: int| 0 <= i < 6 ==> 0 <= #[trigger] self.piece_values@[i] <= 10_000
        &&& 0 <= self.material_weight <= 1_000
        &&& forall|i: int|
            0 <= i < 6 ==> -1_000 <= #[trigger] self.mobility_bonus@[i] <= 1_000
        &&& -100_000 <= self.tempo_bonus <= 100_000
    }
}

impl Default for Params {
    /// The engine's stock weights: classical piece values, unit material
    /// weight, small mobility bonuses for the minor and rook pieces, and a
    /// ten-centipawn tempo bonus.
    fn default() -> (r: Params)
        ensures
            r.wf(),
            r.piece_values@ =~= seq![100i64, 320i64, 330i64, 500i64, 900i64, 0i64],
            r.material_weight == 1,
            r.mobility_bonus@ =~= seq![0i64, 3i64, 2i64, 2i64, 0i64, 0i64],
            r.tempo_bonus == 10,
    {
        Params {
            piece_values: [100i64, 320i64, 330i64, 500i64, 900i64, 0i64],
            material_weight: 1,
            mobility_bonus: [0i64, 3i64, 2i64, 2i64, 0i64, 0i64],
            tempo_bonus: 10,
        }
    }
}

} // verus!
