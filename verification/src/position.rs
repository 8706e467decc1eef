//! Trusted interface to the external chess rules.
//!
//! The search works on opaque `shakmaty::Chess` positions. Everything the
//! search reads from a position — terminal predicates, the halfmove clock,
//! the Zobrist hash, move lists, piece placement bitboards — comes through
//! the wrappers below, whose contracts speak of uninterpreted names: each
//! name stands for what one deterministic function of the external crate
//! returns for a given position. Moves are translated field for field
//! between `shakmaty::Move` and the library's [`crate::moves::Mv`].
use vstd::prelude::*;

use crate::moves::Mv;

verus! {

#[verifier::external_type_specification]
#[verifier::external_body]
pub struct ExChess(shakmaty::Chess);

#[verifier::external_type_specification]
#[verifier::external_body]
pub struct ExMove(shakmaty::Move);

#[verifier::external_type_specification]
#[verifier::external_body]
pub struct ExRole(shakmaty::Role);

#[verifier::external_type_specification]
#[verifier::external_body]
pub struct ExSquare(shakmaty::Square);

/// Whether the side to move is in check, as shakmaty's `is_check` reports it.
pub uninterp spec fn pos_in_check(p: shakmaty::Chess) -> bool;

/// Whether neither side has sufficient winning material, as shakmaty's
/// `is_insufficient_material` reports it.
pub uninterp spec fn pos_insufficient_material(p: shakmaty::Chess) -> bool;

/// The halfmove clock: plies since the last capture or pawn move, as
/// shakmaty's `halfmoves` reports it.
pub uninterp spec fn pos_halfmoves(p: shakmaty::Chess) -> u32;

/// The 64-bit Zobrist hash of the position, as shakmaty's `zobrist_hash`
/// computes it with legal en-passant accounting.
pub uninterp spec fn pos_zobrist(p: shakmaty::Chess) -> u64;

/// Whether White is to move, as shakmaty's `turn` reports it.
pub uninterp spec fn pos_white_to_move(p: shakmaty::Chess) -> bool;

/// The legal moves of the position, in the library's move representation,
/// in the order shakmaty's `legal_moves` generates them.
pub uninterp spec fn pos_legal_moves(p: shakmaty::Chess) -> Seq<Mv>;

/// The successor position after a legal move, as shakmaty's `play` builds it.
pub uninterp spec fn pos_play(p: shakmaty::Chess, m: Mv) -> shakmaty::Chess;

/// The bitboard of the given side's pieces of the given role, as shakmaty's
/// `Board::by_piece` reports it (bit `s` set iff square `s` holds one).
pub uninterp spec fn pos_piece_bb(p: shakmaty::Chess, white: bool, role: u8) -> u64;

/// The bitboard of all of the given side's pieces, as shakmaty's
/// `Board::by_color` reports it.
pub uninterp spec fn pos_color_bb(p: shakmaty::Chess, white: bool) -> u64;

/// The knight attack bitboard of a square, as shakmaty's
/// `attacks::knight_attacks` tabulates it.
pub uninterp spec fn knight_attack_bb(sq: u8) -> u64;

/// The bishop attack bitboard of a square under an occupancy, as shakmaty's
/// `attacks::bishop_attacks` computes it.
pub uninterp spec fn bishop_attack_bb(sq: u8, occupied: u64) -> u64;

/// The rook attack bitboard of a square under an occupancy, as shakmaty's
/// `attacks::rook_attacks` computes it.
pub uninterp spec fn rook_attack_bb(sq: u8, occupied: u64) -> u64;

/// The side to move is checkmated: in check with no legal move.
pub open spec fn is_mated(p: shakmaty::Chess) -> bool {
    pos_in_check(p) && pos_legal_moves(p).len() == 0
}

/// Some legal move delivers checkmate at once.
pub open spec fn has_mate_in_one(p: shakmaty::Chess) -> bool {
    exists|i: int|
        0 <= i < pos_legal_moves(p).len() && is_mated(pos_play(p, pos_legal_moves(p)[i]))
}

/// A sequence of moves is a legal continuation from `p`: each move is legal
/// in the position reached by playing the ones before it.
pub open spec fn legal_line(p: shakmaty::Chess, line: Seq<Mv>) -> bool
    decreases line.len(),
{
    line.len() == 0 || (pos_legal_moves(p).contains(line[0]) && legal_line(
        pos_play(p, line[0]),
        line.drop_first(),
    ))
}

/// The first move of a legal continuation is itself a legal move of the
/// position, and what follows is a legal continuation of the child: the
/// line-validity property, made explicit for the root line a search leaves
/// behind.
pub proof fn lemma_legal_line_unfold(p: shakmaty::Chess, line: Seq<Mv>)
    requires
        legal_line(p, line),
        line.len() > 0,
    ensures
        pos_legal_moves(p).contains(line[0]),
        legal_line(pos_play(p, line[0]), line.drop_first()),
{
}

/// Relies on `shakmaty::Chess::new`: the standard starting position.
#[verifier::external_body]
pub fn startpos() -> shakmaty::Chess {
    shakmaty::Chess::new()
}

/// Relies on `shakmaty::Position::is_check`.
#[verifier::external_body]
pub fn is_check(p: &shakmaty::Chess) -> (r: bool)
    ensures
        r == pos_in_check(*p),
{
    shakmaty::Position::is_check(p)
}

/// Relies on `shakmaty::Position::is_checkmate`, which holds exactly when
/// the side to move is in check and has no legal move.
#[verifier::external_body]
pub fn is_checkmate(p: &shakmaty::Chess) -> (r: bool)
    ensures
        r == (pos_in_check(*p) && pos_legal_moves(*p).len() == 0),
{
    shakmaty::Position::is_checkmate(p)
}

/// Relies on `shakmaty::Position::is_stalemate`, which holds exactly when
/// the side to move is not in check and has no legal move.
#[verifier::external_body]
pub fn is_stalemate(p: &shakmaty::Chess) -> (r: bool)
    ensures
        r == (!pos_in_check(*p) && pos_legal_moves(*p).len() == 0),
{
    shakmaty::Position::is_stalemate(p)
}

/// Relies on `shakmaty::Position::is_insufficient_material`.
#[verifier::external_body]
pub fn is_insufficient_material(p: &shakmaty::Chess) -> (r: bool)
    ensures
        r == pos_insufficient_material(*p),
{
    shakmaty::Position::is_insufficient_material(p)
}

/// Relies on `shakmaty::Position::halfmoves`.
#[verifier::external_body]
pub fn halfmoves(p: &shakmaty::Chess) -> (r: u32)
    ensures
        r == pos_halfmoves(*p),
{
    shakmaty::Position::halfmoves(p)
}

/// Relies on `shakmaty::Position::zobrist_hash` with legal en-passant mode,
/// a pure function of the position.
#[verifier::external_body]
pub fn zobrist(p: &shakmaty::Chess) -> (r: u64)
    ensures
        r == pos_zobrist(*p),
{
    shakmaty::Position::zobrist_hash::<shakmaty::zobrist::Zobrist64>(
        p,
        shakmaty::EnPassantMode::Legal,
    ).0
}

/// Relies on `shakmaty::Position::turn`.
#[verifier::external_body]
pub fn white_to_move(p: &shakmaty::Chess) -> (r: bool)
    ensures
        r == pos_white_to_move(*p),
{
    shakmaty::Position::turn(p) == shakmaty::Color::White
}

/// Relies on `shakmaty::Position::legal_moves`; each generated move is
/// translated field for field, so every returned move is well formed.
#[verifier::external_body]
pub fn legal_moves(p: &shakmaty::Chess) -> (r: Vec<Mv>)
    ensures
        r@ == pos_legal_moves(*p),
        forall|i: int| 0 <= i < r@.len() ==> (#[trigger] r@[i]).wf(),
{
    shakmaty::Position::legal_moves(p).iter().map(mv_from_outside).collect()
}

/// Relies on `shakmaty::Position::capture_moves`, which returns the legal
/// moves retained by `Move::is_capture`, in generation order.
#[verifier::external_body]
pub fn capture_moves(p: &shakmaty::Chess) -> (r: Vec<Mv>)
    ensures
        r@ == pos_legal_moves(*p).filter(|m: Mv| m.spec_is_capture()),
        forall|i: int| 0 <= i < r@.len() ==> (#[trigger] r@[i]).wf(),
{
    shakmaty::Position::capture_moves(p).iter().map(mv_from_outside).collect()
}

/// Relies on `shakmaty::Position::play`: for a legal move it returns the
/// successor position, a pure function of position and move; for any other
/// move it reports an error, which is returned here as `None`.
#[verifier::external_body]
pub fn play(p: &shakmaty::Chess, m: &Mv) -> (r: Option<shakmaty::Chess>)
    requires
        m.wf(),
    ensures
        pos_legal_moves(*p).contains(*m) ==> r == Some(pos_play(*p, *m)),
{
    shakmaty::Position::play(p.clone(), mv_to_outside(m)).ok()
}

/// Relies on `shakmaty::Board::by_piece`.
#[verifier::external_body]
pub fn piece_bb(p: &shakmaty::Chess, white: bool, role: u8) -> (r: u64)
    requires
        1 <= role <= 6,
    ensures
        r == pos_piece_bb(*p, white, role),
{
    let color = if white { shakmaty::Color::White } else { shakmaty::Color::Black };
    shakmaty::Position::board(p).by_piece(role_to_outside(role).of(color)).0
}

/// Relies on `shakmaty::Board::by_color`.
#[verifier::external_body]
pub fn color_bb(p: &shakmaty::Chess, white: bool) -> (r: u64)
    ensures
        r == pos_color_bb(*p, white),
{
    let color = if white { shakmaty::Color::White } else { shakmaty::Color::Black };
    shakmaty::Position::board(p).by_color(color).0
}

/// Relies on `shakmaty::attacks::knight_attacks`, a table lookup.
#[verifier::external_body]
pub fn knight_attacks(sq: u8) -> (r: u64)
    requires
        sq < 64,
    ensures
        r == knight_attack_bb(sq),
{
    shakmaty::attacks::knight_attacks(shakmaty::Square::new(sq as u32)).0
}

/// Relies on `shakmaty::attacks::bishop_attacks`, a pure function of square
/// and occupancy.
#[verifier::external_body]
pub fn bishop_attacks(sq: u8, occupied: u64) -> (r: u64)
    requires
        sq < 64,
    ensures
        r == bishop_attack_bb(sq, occupied),
{
    shakmaty::attacks::bishop_attacks(
        shakmaty::Square::new(sq as u32),
        shakmaty::Bitboard(occupied),
    ).0
}

/// Relies on `shakmaty::attacks::rook_attacks`, a pure function of square
/// and occupancy.
#[verifier::external_body]
pub fn rook_attacks(sq: u8, occupied: u64) -> (r: u64)
    requires
        sq < 64,
    ensures
        r == rook_attack_bb(sq, occupied),
{
    shakmaty::attacks::rook_attacks(
        shakmaty::Square::new(sq as u32),
        shakmaty::Bitboard(occupied),
    ).0
}

/// Relies on `shakmaty::uci::UciMove`'s parser and its `to_move`, which
/// resolves the text to a move it has validated with `is_legal`, or fails;
/// a returned move is therefore among the position's legal moves.
#[verifier::external_body]
pub fn uci_to_move(p: &shakmaty::Chess, s: &str) -> (r: Option<Mv>)
    ensures
        r is Some ==> r->0.wf() && pos_legal_moves(*p).contains(r->0),
{
    let uci: shakmaty::uci::UciMove = s.parse().ok()?;
    Some(mv_from_outside(&uci.to_move(p).ok()?))
}

/// Translates an external move into the library's representation, one
/// variant to one variant, moving fields only.
#[verifier::external_body]
fn mv_from_outside(m: &shakmaty::Move) -> Mv {
    match *m {
        shakmaty::Move::Normal { role, from, capture, to, promotion } => Mv::Normal {
            role: role as u8, from: from as u8, capture: capture.map_or(0, |r| r as u8),
            to: to as u8, promotion: promotion.map_or(0, |r| r as u8),
        },
        shakmaty::Move::EnPassant { from, to } => Mv::EnPassant { from: from as u8, to: to as u8 },
        shakmaty::Move::Castle { king, rook } => Mv::Castle { king: king as u8, rook: rook as u8 },
        shakmaty::Move::Put { role, to } => Mv::Put { role: role as u8, to: to as u8 },
    }
}

/// Translates a well-formed library move back into the external
/// representation, one variant to one variant, moving fields only.
#[verifier::external_body]
fn mv_to_outside(m: &Mv) -> shakmaty::Move {
    match *m {
        Mv::Normal { role, from, capture, to, promotion } => shakmaty::Move::Normal {
            role: role_to_outside(role), from: sq_to_outside(from),
            capture: opt_role_to_outside(capture), to: sq_to_outside(to),
            promotion: opt_role_to_outside(promotion),
        },
        Mv::EnPassant { from, to } => shakmaty::Move::EnPassant {
            from: sq_to_outside(from), to: sq_to_outside(to) },
        Mv::Castle { king, rook } => shakmaty::Move::Castle {
            king: sq_to_outside(king), rook: sq_to_outside(rook) },
        Mv::Put { role, to } => shakmaty::Move::Put {
            role: role_to_outside(role), to: sq_to_outside(to) },
    }
}

/// Translates a square number in 0..=63 into the external square.
#[verifier::external_body]
fn sq_to_outside(sq: u8) -> shakmaty::Square {
    shakmaty::Square::new(sq as u32)
}

/// Translates a role number in 1..=6 into the external role.
#[verifier::external_body]
fn role_to_outside(role: u8) -> shakmaty::Role {
    shakmaty::Role::try_from(role as u32).unwrap()
}

/// Translates a role number, 0 standing for "none".
#[verifier::external_body]
fn opt_role_to_outside(role: u8) -> Option<shakmaty::Role> {
    if role == 0 { None } else { Some(role_to_outside(role)) }
}

} // verus!
