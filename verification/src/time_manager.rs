//! Per-move time allocation, in milliseconds.
//!
//! Roughly a tenth of the remaining clock plus the increment, widened up to
//! 1.3x in positions with many legal moves and tightened down to 0.7x in
//! quiet ones, floored at 20 ms and capped at two thirds of the remaining
//! clock (the cap wins when the clock is nearly empty).
use vstd::prelude::*;

use crate::position::{legal_moves, pos_legal_moves};

verus! {

/// The allocation formula: with no clock given, one second; otherwise
/// `(remaining/10 + increment) * clamp(moves * 1000 / 30, 700, 1300) / 1000`
/// bounded into `[20, remaining * 2/3]`, the upper bound prevailing.
pub open spec fn spec_time_limit(
    move_count: int,
    remaining: Option<u64>,
    increment: Option<u64>,
) -> int {
    match remaining {
        None => 1000,
        Some(rem) => {
            let inc = match increment {
                Some(x) => x as int,
                None => 0int,
            };
            let base = rem as int / 10 + inc;
            let scaled = move_count * 1000 / 30;
            let permille = if scaled < 700 {
                700int
            } else if scaled > 1300 {
                1300int
            } else {
                scaled
            };
            let t = base * permille / 1000;
            let hi = rem as int * 2 / 3;
            let raised = if t < 20 {
                20int
            } else {
                t
            };
            if raised > hi {
                hi
            } else {
                raised
            }
        },
    }
}

/// Computes the time budget for one move from the clock, the increment and
/// the number of legal moves of the position.
pub fn compute_time_limit(
    pos: &shakmaty::Chess,
    remaining: Option<u64>,
    increment: Option<u64>,
) -> (r: u64)
    ensures
        r == spec_time_limit(pos_legal_moves(*pos).len() as int, remaining, increment),
{
    let rem: u64 = match remaining {
        Some(t) => t,
        None => {
            return 1000;
        },
    };
    let inc: u64 = match increment {
        Some(t) => t,
        None => 0,
    };
    let move_count = legal_moves(pos).len();

    let base: u128 = (rem / 10) as u128 + inc as u128;
    let scaled: u128 = (move_count as u128) * 1000 / 30;
    let permille: u128 = if scaled < 700 {
        700
    } else if scaled > 1300 {
        1300
    } else {
        scaled
    };
    proof {
        assert(base * permille <= 0x4_0000_0000_0000_0000u128 * 1300) by (nonlinear_arith)
            requires
                0 <= base <= 0x4_0000_0000_0000_0000u128,
                0 <= permille <= 1300,
        ;
    }
    let t: u128 = base * permille / 1000;
    let hi: u128 = (rem as u128) * 2 / 3;
    let raised: u128 = if t < 20 {
        20
    } else {
        t
    };
    let res: u128 = if raised > hi {
        hi
    } else {
        raised
    };
    res as u64
}

} // verus!
