//! Score constants for the search, in centipawns.
//!
//! Scores are plain signed integers. `MATE_SCORE` is a large sentinel used
//! for mate encoding (`-MATE_SCORE + ply` at a mated node), `DRAW_SCORE` is
//! zero, and `SCORE_INF` bounds every score that flows through the search;
//! it plays the role of the infinite window bounds at the root.
use vstd::prelude::*;

verus! {

/// Sentinel for a checkmate score; mate at ply `p` scores `-MATE_SCORE + p`.
pub const MATE_SCORE: i64 = 30_000;

/// Score of a drawn position (stalemate, repetition, 50-move rule,
/// insufficient material).
pub const DRAW_SCORE: i64 = 0;

/// Every score the search produces or consumes lies in
/// `[-SCORE_INF, SCORE_INF]`; the root window is the full interval.
pub const SCORE_INF: i64 = 1_000_000_000_000;

/// A static evaluation under well-formed parameters is bounded by this,
/// strictly below `SCORE_INF`.
pub const EVAL_BOUND: i64 = 10_000_000_000;

/// A score is in the closed interval the search works over.
pub open spec fn score_in_range(s: i64) -> bool {
    -SCORE_INF <= s <= SCORE_INF
}

} // verus!
