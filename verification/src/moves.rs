//! The library's move representation.
//!
//! A move is a record of plain integers, mirroring the four shapes a chess
//! move can take. Roles are numbered 1 (pawn) through 6 (king); squares are
//! numbered 0 (a1) through 63 (h8), file-major within each rank. In `Normal`
//! moves, `capture` and `promotion` use 0 for "none" and a role number
//! otherwise.
use vstd::prelude::*;

verus! {

#[derive(Clone, Copy, PartialEq, Eq, Structural, Debug, Hash)]
pub enum Mv {
    Normal { role: u8, from: u8, capture: u8, to: u8, promotion: u8 },
    EnPassant { from: u8, to: u8 },
    Castle { king: u8, rook: u8 },
    Put { role: u8, to: u8 },
}

impl Mv {
    /// Squares fit on the board and roles are valid piece numbers.
    pub open spec fn wf(self) -> bool {
        match self {
            Mv::Normal { role, from, capture, to, promotion } => {
                1 <= role <= 6 && from < 64 && to < 64 && capture <= 6 && promotion <= 6
            },
            Mv::EnPassant { from, to } => from < 64 && to < 64,
            Mv::Castle { king, rook } => king < 64 && rook < 64,
            Mv::Put { role, to } => 1 <= role <= 6 && to < 64,
        }
    }

    /// Whether the move takes a piece; en passant counts as a capture.
    pub open spec fn spec_is_capture(self) -> bool {
        match self {
            Mv::Normal { capture, .. } => capture != 0,
            Mv::EnPassant { .. } => true,
            Mv::Castle { .. } => false,
            Mv::Put { .. } => false,
        }
    }

    #[verifier::when_used_as_spec(spec_is_capture)]
    pub fn is_capture(self) -> (r: bool)
        ensures
            r == self.spec_is_capture(),
    {
        match self {
            Mv::Normal { capture, .. } => capture != 0,
            Mv::EnPassant { .. } => true,
            Mv::Castle { .. } => false,
            Mv::Put { .. } => false,
        }
    }

    /// Role of the moving piece (the attacker, for captures).
    pub open spec fn spec_attacker_role(self) -> u8 {
        match self {
            Mv::Normal { role, .. } => role,
            Mv::EnPassant { .. } => 1,
            Mv::Castle { .. } => 6,
            Mv::Put { role, .. } => role,
        }
    }

    #[verifier::when_used_as_spec(spec_attacker_role)]
    pub fn attacker_role(self) -> (r: u8)
        ensures
            r == self.spec_attacker_role(),
    {
        match self {
            Mv::Normal { role, .. } => role,
            Mv::EnPassant { .. } => 1,
            Mv::Castle { .. } => 6,
            Mv::Put { role, .. } => role,
        }
    }

    /// Role of the captured piece; a pawn for en passant, a pawn as the
    /// neutral fallback for non-captures (matching a pawn default when no
    /// victim sits on the target square).
    pub open spec fn spec_victim_role(self) -> u8 {
        match self {
            Mv::Normal { capture, .. } => if capture == 0 { 1 } else { capture },
            Mv::EnPassant { .. } => 1,
            Mv::Castle { .. } => 1,
            Mv::Put { .. } => 1,
        }
    }

    #[verifier::when_used_as_spec(spec_victim_role)]
    pub fn victim_role(self) -> (r: u8)
        ensures
            r == self.spec_victim_role(),
    {
        match self {
            Mv::Normal { capture, .. } => if capture == 0 { 1 } else { capture },
            Mv::EnPassant { .. } => 1,
            Mv::Castle { .. } => 1,
            Mv::Put { .. } => 1,
        }
    }
}

} // verus!
