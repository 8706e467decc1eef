//! Position construction from FEN text.
use vstd::prelude::*;

verus! {

/// Relies on shakmaty's FEN parser and `Fen::into_position` with standard
/// castling: a well-formed six-field FEN yields the position it denotes;
/// anything else yields `None`.
#[verifier::external_body]
pub fn read_position_from_fen(fen_str: &str) -> Option<shakmaty::Chess> {
    let fen: shakmaty::fen::Fen = fen_str.parse().ok()?;
    fen.into_position(shakmaty::CastlingMode::Standard).ok()
}

} // verus!
